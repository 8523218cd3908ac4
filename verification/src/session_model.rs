//! Model settings that hold for one session.
//!
//! A sparse overlay in the metadata of a session holds only the settings that the user chose for
//! it. What the overlay does not set is taken from the configuration.

use crate::json;
use crate::json::{Json, JsonView};
use crate::strmap;
use crate::strmap::StrMap;
use crate::text;
use crate::text::{concat3, str_eq};
use vstd::prelude::*;

verus! {

/// The names of the settings that an overlay can hold.
pub const SESSION_MODEL_FIELDS: [&'static str; 6] = [
    "model",
    "model_provider",
    "model_thinking",
    "model_thinking_provider",
    "model_vlm",
    "model_vlm_provider",
];

/// Settings by their names.
pub type SessionOverlay = StrMap<String>;

/// Whether a name is that of a setting that an overlay can hold.
pub open spec fn is_field(name: Seq<char>) -> bool {
    exists|i: int|
        0 <= i < SESSION_MODEL_FIELDS@.len() && (#[trigger] SESSION_MODEL_FIELDS@[i])@ == name
}

/// Whether a name is that of a setting that an overlay can hold.
pub fn is_session_model_field(name: &str) -> (r: bool)
    ensures
        r == is_field(name@),
{
    let fields: [&'static str; 6] = SESSION_MODEL_FIELDS;
    let mut i: usize = 0;
    while i < 6
        invariant
            i <= 6,
            fields == SESSION_MODEL_FIELDS,
            fields@.len() == 6,
            forall|j: int| 0 <= j < i ==> (#[trigger] SESSION_MODEL_FIELDS@[j])@ != name@,
        decreases 6 - i,
    {
        if str_eq(fields[i], name) {
            assert(SESSION_MODEL_FIELDS@[i as int]@ == name@);
            return true;
        }
        i += 1;
    }
    false
}

/// The settings of an overlay, by the characters of their names.
pub open spec fn overlay_view(overlay: SessionOverlay) -> Map<Seq<char>, Seq<char>> {
    overlay@.map_values(|s: String| s@)
}

/// The settings of an optional overlay.
pub open spec fn overlay_option_view(overlay: Option<SessionOverlay>) -> Option<
    Map<Seq<char>, Seq<char>>,
> {
    match overlay {
        Some(o) => Some(overlay_view(o)),
        None => None,
    }
}

/// The settings that have the names of fields.
pub open spec fn valid_part(settings: Map<Seq<char>, Seq<char>>) -> Map<Seq<char>, Seq<char>> {
    Map::new(
        |k: Seq<char>| settings.contains_key(k) && is_field(k),
        |k: Seq<char>| settings[k],
    )
}

/// What a configuration holds of the settings that an overlay replaces.
pub open spec fn recorded(
    config: Map<Seq<char>, Seq<char>>,
    overlay: Map<Seq<char>, Seq<char>>,
) -> Map<Seq<char>, Seq<char>> {
    Map::new(
        |k: Seq<char>| valid_part(overlay).contains_key(k) && config.contains_key(k),
        |k: Seq<char>| config[k],
    )
}

/// The value under a key.
pub open spec fn value_in(settings: Map<Seq<char>, Seq<char>>, key: Seq<char>) -> Option<
    Seq<char>,
> {
    if settings.contains_key(key) {
        Some(settings[key])
    } else {
        None
    }
}

/// A call of `get` on `key` can return `value`.
pub open spec fn can_read<G: Fn(&str) -> Option<String>>(
    get: G,
    key: Seq<char>,
    value: Option<Seq<char>>,
) -> bool {
    exists|k: &str, r: Option<String>|
        k@ == key && #[trigger] call_ensures(get, (k,), r) && text::string_chars(r) == value
}

/// Whatever `get` returns is the value in `config`.
pub open spec fn reads<G: Fn(&str) -> Option<String>>(
    get: G,
    config: Map<Seq<char>, Seq<char>>,
) -> bool {
    forall|k: &str, r: Option<String>| #[trigger]
        call_ensures(get, (k,), r) ==> text::string_chars(r) == value_in(config, k@)
}

/// `set` has been called on `key` and `value`.
pub open spec fn was_set<S: Fn(&str, &str)>(set: S, key: Seq<char>, value: Seq<char>) -> bool {
    exists|k: &str, v: &str|
        k@ == key && v@ == value && #[trigger] call_ensures(set, (k, v), ())
}

/// What a manager knows.
pub struct ManagerView {
    /// The values that the overlay replaced.
    pub originals: Map<Seq<char>, Seq<char>>,
    /// The overlay that holds.
    pub overlay: Option<Map<Seq<char>, Seq<char>>>,
}

impl ManagerView {
    /// Whether there is an overlay that sets anything.
    pub open spec fn active(self) -> bool {
        self.overlay matches Some(o) && o != Map::<Seq<char>, Seq<char>>::empty()
    }

    /// An overlay sets something, and only an overlay has replaced values.
    pub open spec fn consistent(self) -> bool {
        match self.overlay {
            Some(o) => o != Map::<Seq<char>, Seq<char>>::empty(),
            None => self.originals == Map::<Seq<char>, Seq<char>>::empty(),
        }
    }
}

/// A list of settings that holds each of the given values once, and nothing else.
pub open spec fn sets_each_once(
    settings: Seq<(String, String)>,
    values: Map<Seq<char>, Seq<char>>,
) -> bool {
    strmap::distinct_keys(settings) && pairs_text(settings) == values
}

/// The test whether a setting gives a value to a key.
pub open spec fn gives(key: Seq<char>, value: Seq<char>) -> spec_fn((String, String)) -> bool {
    |setting: (String, String)| setting.0@ == key && setting.1@ == value
}

/// What a manager knows before there was an overlay, and after the overlay was dropped.
pub open spec fn no_overlay() -> ManagerView {
    ManagerView { originals: Map::empty(), overlay: None }
}

/// What a manager knows after an overlay was put over a configuration.
pub open spec fn after_apply(
    before: ManagerView,
    config: Map<Seq<char>, Seq<char>>,
    overlay: Map<Seq<char>, Seq<char>>,
) -> ManagerView {
    if overlay == Map::<Seq<char>, Seq<char>>::empty() {
        before
    } else {
        ManagerView { originals: recorded(config, overlay), overlay: Some(overlay) }
    }
}

/// A configuration with an overlay over it.
pub open spec fn overlaid(
    config: Map<Seq<char>, Seq<char>>,
    overlay: Map<Seq<char>, Seq<char>>,
) -> Map<Seq<char>, Seq<char>> {
    config.union_prefer_right(valid_part(overlay))
}

/// A configuration with recorded values put back into it.
pub open spec fn put_back(
    config: Map<Seq<char>, Seq<char>>,
    originals: Map<Seq<char>, Seq<char>>,
) -> Map<Seq<char>, Seq<char>> {
    config.union_prefer_right(originals)
}

/// The overlay of a session, with the values that it replaced.
#[derive(Debug)]
pub struct SessionModelManager {
    originals: StrMap<String>,
    active_overlay: Option<SessionOverlay>,
}

impl View for SessionModelManager {
    type V = ManagerView;

    closed spec fn view(&self) -> ManagerView {
        ManagerView {
            originals: overlay_view(self.originals),
            overlay: overlay_option_view(self.active_overlay),
        }
    }
}

/// A copy of an overlay.
pub fn copy_overlay(overlay: &SessionOverlay) -> (r: SessionOverlay)
    ensures
        overlay_view(r) == overlay_view(*overlay),
{
    let n: usize = overlay.len();
    let mut r: SessionOverlay = StrMap::new();
    let mut i: usize = 0;
    proof {
        assert(overlay.pairs().take(0) =~= Seq::empty());
        assert(overlay_view(r) =~= pairs_text(overlay.pairs().take(0)));
    }
    while i < n
        invariant
            i <= n,
            n == overlay.pairs().len(),
            overlay_view(r) == pairs_text(overlay.pairs().take(i as int)),
        decreases n - i,
    {
        let (key, value) = overlay.pair(i);
        let ghost before = overlay_view(r);
        r.insert(key.as_str(), value.clone());
        proof {
            assert(overlay_view(r) =~= before.insert(key@, value@));
            lemma_pairs_text_step(overlay.pairs(), i as int);
        }
        i += 1;
    }
    proof {
        assert(overlay.pairs().take(n as int) =~= overlay.pairs());
    }
    r
}

/// The settings of a list of pairs.
pub open spec fn pairs_text(pairs: Seq<(String, String)>) -> Map<Seq<char>, Seq<char>> {
    strmap::pairs_map(pairs).map_values(|s: String| s@)
}

proof fn lemma_pairs_text_step(pairs: Seq<(String, String)>, i: int)
    requires
        0 <= i < pairs.len(),
    ensures
        pairs_text(pairs.take(i + 1)) == pairs_text(pairs.take(i)).insert(
            pairs[i].0@,
            pairs[i].1@,
        ),
{
    assert(pairs.take(i + 1).drop_last() =~= pairs.take(i));
    assert(pairs_text(pairs.take(i + 1)) =~= pairs_text(pairs.take(i)).insert(
        pairs[i].0@,
        pairs[i].1@,
    ));
}

impl Clone for SessionModelManager {
    fn clone(&self) -> (r: Self)
        ensures
            r@ == self@,
    {
        let active_overlay = match &self.active_overlay {
            Some(overlay) => Some(copy_overlay(overlay)),
            None => None,
        };
        SessionModelManager { originals: copy_overlay(&self.originals), active_overlay }
    }
}

impl Default for SessionModelManager {
    fn default() -> (r: Self)
        ensures
            r@ == no_overlay(),
    {
        Self::new()
    }
}

impl SessionModelManager {
    /// A manager without an overlay.
    pub fn new() -> (r: Self)
        ensures
            r@ == no_overlay(),
    {
        let r = SessionModelManager { originals: StrMap::new(), active_overlay: None };
        proof {
            assert(overlay_view(r.originals) =~= Map::empty());
        }
        r
    }

    /// A manager that was stored.
    pub fn from_parts(originals: StrMap<String>, active_overlay: Option<SessionOverlay>) -> (r:
        Self)
        ensures
            r@.originals == overlay_view(originals),
            r@.overlay == overlay_option_view(active_overlay),
    {
        SessionModelManager { originals, active_overlay }
    }

    /// The values that the overlay replaced.
    pub fn originals(&self) -> (r: &StrMap<String>)
        ensures
            overlay_view(*r) == self@.originals,
    {
        &self.originals
    }

    /// Whether there is an overlay that sets anything.
    pub fn is_active(&self) -> (r: bool)
        ensures
            r == self@.active(),
            self@.consistent() ==> r == (self@.overlay is Some),
    {
        match &self.active_overlay {
            Some(overlay) => {
                proof {
                    lemma_overlay_empty(*overlay);
                }
                !overlay.is_empty()
            },
            None => false,
        }
    }

    /// Put an overlay over a configuration, and record the values that it replaces.
    ///
    /// `get_config_value` reads a value of the configuration and `set_config_value` replaces one.
    /// Both are called on fields of the overlay only, and a value is replaced only once it was
    /// read. An empty overlay changes nothing.
    pub fn apply<G, S>(
        &mut self,
        overlay: &SessionOverlay,
        get_config_value: G,
        set_config_value: S,
    ) where G: Fn(&str) -> Option<String>, S: Fn(&str, &str)
        requires
            forall|k: &str|
                valid_part(overlay_view(*overlay)).contains_key(k@) ==> #[trigger] call_requires(
                    get_config_value,
                    (k,),
                ),
            forall|k: &str, v: &str, read: Option<String>|
                valid_part(overlay_view(*overlay)).contains_key(k@) && v@ == overlay_view(
                    *overlay,
                )[k@] && #[trigger] call_ensures(get_config_value, (k,), read)
                    ==> #[trigger] call_requires(set_config_value, (k, v)),
        ensures
            overlay_view(*overlay) == Map::<Seq<char>, Seq<char>>::empty() ==> final(self)@
                == old(self)@,
            overlay_view(*overlay) != Map::<Seq<char>, Seq<char>>::empty() ==> {
                &&& final(self)@.overlay == Some(overlay_view(*overlay))
                &&& final(self)@.originals.dom().subset_of(valid_part(overlay_view(*overlay)).dom())
                &&& forall|k: Seq<char>| #[trigger]
                    valid_part(overlay_view(*overlay)).contains_key(k) ==> can_read(
                        get_config_value,
                        k,
                        value_in(final(self)@.originals, k),
                    )
                &&& forall|k: Seq<char>| #[trigger]
                    valid_part(overlay_view(*overlay)).contains_key(k) ==> was_set(
                        set_config_value,
                        k,
                        overlay_view(*overlay)[k],
                    )
            },
            forall|config: Map<Seq<char>, Seq<char>>| #[trigger]
                reads(get_config_value, config) ==> final(self)@ == after_apply(
                    old(self)@,
                    config,
                    overlay_view(*overlay),
                ),
            old(self)@.consistent() ==> final(self)@.consistent(),
    {
        proof {
            lemma_overlay_empty(*overlay);
        }
        if overlay.is_empty() {
            return;
        }
        let mut originals: StrMap<String> = StrMap::new();
        let ghost pairs = overlay.pairs();
        let ghost whole = overlay_view(*overlay);
        let n: usize = overlay.len();
        let mut i: usize = 0;
        proof {
            assert(pairs.take(0) =~= Seq::empty());
            assert(overlay_view(originals) =~= Map::empty());
        }
        while i < n
            invariant
                i <= n,
                n == pairs.len(),
                pairs == overlay.pairs(),
                whole == overlay_view(*overlay),
                strmap::distinct_keys(pairs),
                forall|k: &str|
                    valid_part(whole).contains_key(k@) ==> #[trigger] call_requires(
                        get_config_value,
                        (k,),
                    ),
                forall|k: &str, v: &str, read: Option<String>|
                    valid_part(whole).contains_key(k@) && v@ == whole[k@]
                        && #[trigger] call_ensures(get_config_value, (k,), read)
                        ==> #[trigger] call_requires(set_config_value, (k, v)),
                overlay_view(originals).dom().subset_of(
                    valid_part(pairs_text(pairs.take(i as int))).dom(),
                ),
                forall|k: Seq<char>| #[trigger]
                    valid_part(pairs_text(pairs.take(i as int))).contains_key(k) ==> can_read(
                        get_config_value,
                        k,
                        value_in(overlay_view(originals), k),
                    ),
                forall|k: Seq<char>| #[trigger]
                    valid_part(pairs_text(pairs.take(i as int))).contains_key(k) ==> was_set(
                        set_config_value,
                        k,
                        pairs_text(pairs.take(i as int))[k],
                    ),
            decreases n - i,
        {
            let (key, value) = overlay.pair(i);
            let ghost before = overlay_view(originals);
            let ghost seen = pairs_text(pairs.take(i as int));
            let ghost now = pairs_text(pairs.take(i + 1));
            proof {
                lemma_pairs_text_step(pairs, i as int);
                lemma_new_key(pairs, i as int);
            }
            let name = key.as_str();
            let setting = value.as_str();
            if is_session_model_field(name) {
                assert(valid_part(whole).contains_key(name@) && whole[name@] == setting@);
                let found = get_config_value(name);
                let ghost read = text::string_chars(found);
                assert(call_ensures(get_config_value, (name,), found));
                assert(can_read(get_config_value, key@, read));
                if let Some(original) = found {
                    originals.insert(name, original);
                    proof {
                        assert(overlay_view(originals) =~= before.insert(key@, original@));
                    }
                }
                set_config_value(name, setting);
                proof {
                    assert(call_ensures(set_config_value, (name, setting), ()));
                    assert(was_set(set_config_value, key@, value@));
                    assert(!before.contains_key(key@));
                    assert(value_in(overlay_view(originals), key@) == read);
                }
            }
            proof {
                assert forall|k: Seq<char>| #[trigger] valid_part(now).contains_key(k) implies can_read(
                    get_config_value,
                    k,
                    value_in(overlay_view(originals), k),
                ) && was_set(set_config_value, k, now[k]) by {
                    if k != key@ {
                        assert(valid_part(seen).contains_key(k));
                        assert(value_in(overlay_view(originals), k) == value_in(before, k));
                    }
                }
                assert forall|k: Seq<char>| #[trigger]
                    overlay_view(originals).contains_key(k) implies valid_part(now).contains_key(
                    k,
                ) by {
                    if k != key@ {
                        assert(before.contains_key(k));
                        assert(valid_part(seen).contains_key(k));
                    }
                }
                assert(overlay_view(originals).dom().subset_of(valid_part(now).dom()));
            }
            i += 1;
        }
        proof {
            assert(pairs.take(n as int) =~= pairs);
            assert(pairs_text(pairs) == whole);
            assert forall|config: Map<Seq<char>, Seq<char>>| #[trigger]
                reads(get_config_value, config) implies overlay_view(originals) == recorded(
                config,
                whole,
            ) by {
                assert forall|k: Seq<char>|
                    value_in(overlay_view(originals), k) == #[trigger] value_in(
                        recorded(config, whole),
                        k,
                    ) by {
                    if valid_part(whole).contains_key(k) {
                        assert(can_read(
                            get_config_value,
                            k,
                            value_in(overlay_view(originals), k),
                        ));
                    } else {
                        assert(!overlay_view(originals).contains_key(k));
                    }
                }
                lemma_same_values(overlay_view(originals), recorded(config, whole));
            }
        }
        self.active_overlay = Some(copy_overlay(overlay));
        self.originals = originals;
    }

    /// The settings that put the recorded values back, each once. The overlay is dropped.
    pub fn take_originals(&mut self) -> (r: Vec<(String, String)>)
        ensures
            final(self)@ == no_overlay(),
            sets_each_once(r@, old(self)@.originals),
    {
        let mut originals: StrMap<String> = StrMap::new();
        std::mem::swap(&mut originals, &mut self.originals);
        self.active_overlay = None;
        proof {
            assert(overlay_view(self.originals) =~= Map::empty());
        }
        originals.into_pairs()
    }

    /// Put the recorded values back into the configuration, and drop the overlay.
    ///
    /// `set_config_value` is called on recorded values only.
    pub fn restore<S>(&mut self, set_config_value: S) where S: Fn(&str, &str)
        requires
            forall|k: &str, v: &str|
                old(self)@.originals.contains_key(k@) && v@ == old(self)@.originals[k@]
                    ==> #[trigger] call_requires(set_config_value, (k, v)),
        ensures
            final(self)@ == no_overlay(),
            forall|k: Seq<char>| #[trigger]
                old(self)@.originals.contains_key(k) ==> was_set(
                    set_config_value,
                    k,
                    old(self)@.originals[k],
                ),
    {
        let ghost originals = self@.originals;
        let settings = self.take_originals();
        let mut i: usize = 0;
        proof {
            assert(settings@.take(0) =~= Seq::empty());
        }
        while i < settings.len()
            invariant
                i <= settings@.len(),
                sets_each_once(settings@, originals),
                forall|k: &str, v: &str|
                    originals.contains_key(k@) && v@ == originals[k@] ==> #[trigger] call_requires(
                        set_config_value,
                        (k, v),
                    ),
                forall|k: Seq<char>| #[trigger]
                    pairs_text(settings@.take(i as int)).contains_key(k) ==> was_set(
                        set_config_value,
                        k,
                        pairs_text(settings@.take(i as int))[k],
                    ),
            decreases settings@.len() - i,
        {
            let key = settings[i].0.as_str();
            let value = settings[i].1.as_str();
            proof {
                strmap::lemma_pairs_map_at(settings@, i as int);
                assert(originals.contains_key(key@) && originals[key@] == value@);
            }
            set_config_value(key, value);
            proof {
                assert(call_ensures(set_config_value, (key, value), ()));
                assert(was_set(set_config_value, key@, value@));
                lemma_pairs_text_step(settings@, i as int);
            }
            i += 1;
        }
        proof {
            assert(settings@.take(settings@.len() as int) =~= settings@);
        }
    }

    /// Put an overlay over settings, and record the values that it replaces.
    ///
    /// A value is recorded before it is replaced. An empty overlay changes nothing.
    pub fn apply_to(&mut self, overlay: &SessionOverlay, config: &mut StrMap<String>)
        ensures
            final(self)@ == after_apply(
                old(self)@,
                overlay_view(*old(config)),
                overlay_view(*overlay),
            ),
            overlay_view(*final(config)) == overlaid(
                overlay_view(*old(config)),
                overlay_view(*overlay),
            ),
            old(self)@.consistent() ==> final(self)@.consistent(),
    {
        let ghost first = overlay_view(*config);
        let ghost whole = overlay_view(*overlay);
        proof {
            lemma_overlay_empty(*overlay);
        }
        if overlay.is_empty() {
            proof {
                assert(overlaid(first, whole) =~= first);
            }
            return;
        }
        let mut originals: StrMap<String> = StrMap::new();
        let ghost pairs = overlay.pairs();
        let n: usize = overlay.len();
        let mut i: usize = 0;
        proof {
            assert(pairs.take(0) =~= Seq::empty());
            let none = pairs_text(pairs.take(0));
            assert(overlay_view(originals) =~= recorded(first, none));
            assert(first =~= overlaid(first, none));
        }
        while i < n
            invariant
                i <= n,
                n == pairs.len(),
                pairs == overlay.pairs(),
                strmap::distinct_keys(pairs),
                overlay_view(originals) == recorded(first, pairs_text(pairs.take(i as int))),
                overlay_view(*config) == overlaid(first, pairs_text(pairs.take(i as int))),
            decreases n - i,
        {
            let (key, value) = overlay.pair(i);
            let name = key.as_str();
            let ghost seen = pairs_text(pairs.take(i as int));
            let ghost now = pairs_text(pairs.take(i + 1));
            let ghost recorded_before = overlay_view(originals);
            let ghost config_before = overlay_view(*config);
            proof {
                lemma_pairs_text_step(pairs, i as int);
                lemma_new_key(pairs, i as int);
            }
            if is_session_model_field(name) {
                let found = match config.get(name) {
                    Some(original) => Some(original.clone()),
                    None => None,
                };
                let ghost read = text::string_chars(found);
                assert(read == value_in(config_before, key@));
                assert(read == value_in(first, key@));
                if let Some(original) = found {
                    originals.insert(name, original);
                    proof {
                        assert(overlay_view(originals) =~= recorded_before.insert(
                            key@,
                            original@,
                        ));
                    }
                }
                config.insert(name, value.clone());
                proof {
                    assert(overlay_view(*config) =~= config_before.insert(key@, value@));
                    assert(overlaid(first, now) =~= config_before.insert(key@, value@));
                    assert(overlay_view(originals) =~= recorded(first, now));
                }
            } else {
                proof {
                    assert(recorded(first, now) =~= recorded_before);
                    assert(overlaid(first, now) =~= config_before);
                }
            }
            i += 1;
        }
        proof {
            assert(pairs.take(n as int) =~= pairs);
        }
        self.active_overlay = Some(copy_overlay(overlay));
        self.originals = originals;
    }

    /// Put the recorded values back into settings, and drop the overlay.
    pub fn restore_to(&mut self, config: &mut StrMap<String>)
        ensures
            final(self)@ == no_overlay(),
            overlay_view(*final(config)) == put_back(
                overlay_view(*old(config)),
                old(self)@.originals,
            ),
    {
        let ghost first = overlay_view(*config);
        let settings = self.take_originals();
        let mut i: usize = 0;
        proof {
            assert(settings@.take(0) =~= Seq::empty());
            assert(first =~= put_back(first, pairs_text(settings@.take(0))));
        }
        while i < settings.len()
            invariant
                i <= settings@.len(),
                overlay_view(*config) == put_back(first, pairs_text(settings@.take(i as int))),
            decreases settings@.len() - i,
        {
            let key = settings[i].0.as_str();
            let value = settings[i].1.clone();
            let ghost before = overlay_view(*config);
            let ghost setting = value@;
            config.insert(key, value);
            proof {
                lemma_pairs_text_step(settings@, i as int);
                assert(overlay_view(*config) =~= before.insert(key@, setting));
                assert(put_back(first, pairs_text(settings@.take(i + 1))) =~= before.insert(
                    key@,
                    setting,
                ));
            }
            i += 1;
        }
        proof {
            assert(settings@.take(settings@.len() as int) =~= settings@);
        }
    }

    /// The overlay, to be stored with the session.
    pub fn get_overlay(&self) -> (r: Option<&SessionOverlay>)
        ensures
            match r {
                Some(overlay) => self@.overlay == Some(overlay_view(*overlay)),
                None => self@.overlay is None,
            },
    {
        match &self.active_overlay {
            Some(overlay) => Some(overlay),
            None => None,
        }
    }
}

proof fn lemma_overlay_empty(overlay: SessionOverlay)
    ensures
        overlay_view(overlay) == Map::<Seq<char>, Seq<char>>::empty() <==> overlay@ == Map::<
            Seq<char>,
            String,
        >::empty(),
{
    if overlay@ == Map::<Seq<char>, String>::empty() {
        assert(overlay_view(overlay) =~= Map::empty());
    } else {
        if overlay_view(overlay) == Map::<Seq<char>, Seq<char>>::empty() {
            assert forall|k: Seq<char>| !#[trigger] overlay@.contains_key(k) by {
                if overlay@.contains_key(k) {
                    assert(overlay_view(overlay).contains_key(k));
                }
            }
            assert(overlay@ =~= Map::empty());
        }
    }
}

proof fn lemma_new_key(pairs: Seq<(String, String)>, i: int)
    requires
        strmap::distinct_keys(pairs),
        0 <= i < pairs.len(),
    ensures
        !pairs_text(pairs.take(i)).contains_key(pairs[i].0@),
{
    let seen = pairs.take(i);
    strmap::lemma_pairs_map_dom(seen, pairs[i].0@);
    if strmap::pairs_map(seen).contains_key(pairs[i].0@) {
        let j = choose|j: int|
            0 <= j < seen.len() && #[trigger] strmap::key_at(seen, j) == pairs[i].0@;
        assert(pairs[j].0@ != pairs[i].0@);
    }
}

proof fn lemma_same_values(a: Map<Seq<char>, Seq<char>>, b: Map<Seq<char>, Seq<char>>)
    requires
        forall|k: Seq<char>| value_in(a, k) == #[trigger] value_in(b, k),
    ensures
        a == b,
{
    assert forall|k: Seq<char>| #[trigger] a.contains_key(k) implies b.contains_key(k) && a[k]
        == b[k] by {
        assert(value_in(a, k) == value_in(b, k));
    }
    assert forall|k: Seq<char>| #[trigger] b.contains_key(k) implies a.contains_key(k) by {
        assert(value_in(a, k) == value_in(b, k));
    }
    assert(a =~= b);
}

/// The key of the overlay in the metadata of a session.
pub const SESSION_MODEL_KEY: &'static str = "session_model";

/// All members are strings.
pub open spec fn all_text(members: Map<Seq<char>, JsonView>) -> bool {
    forall|k: Seq<char>| #[trigger] members.contains_key(k) ==> members[k] is String
}

/// The texts of members that are strings.
pub open spec fn member_texts(members: Map<Seq<char>, JsonView>) -> Map<Seq<char>, Seq<char>> {
    members.map_values(|v: JsonView| v->String_0)
}

/// The overlay in the metadata of a session: an object of strings.
pub open spec fn stored_overlay(metadata: JsonView) -> Option<Map<Seq<char>, Seq<char>>> {
    match metadata.get(SESSION_MODEL_KEY@) {
        Some(JsonView::Object(members)) => if all_text(members) {
            Some(member_texts(members))
        } else {
            None
        },
        _ => None,
    }
}

/// An overlay as a JSON value.
pub open spec fn overlay_json(settings: Map<Seq<char>, Seq<char>>) -> JsonView {
    JsonView::Object(settings.map_values(|s: Seq<char>| JsonView::String(s)))
}

/// The metadata of a session with an overlay. Only an object can hold one.
pub open spec fn with_overlay(
    metadata: JsonView,
    settings: Map<Seq<char>, Seq<char>>,
) -> JsonView {
    match metadata {
        JsonView::Object(members) => JsonView::Object(
            members.insert(SESSION_MODEL_KEY@, overlay_json(settings)),
        ),
        _ => metadata,
    }
}

/// The metadata of a session without an overlay.
pub open spec fn without_overlay(metadata: JsonView) -> JsonView {
    match metadata {
        JsonView::Object(members) => JsonView::Object(members.remove(SESSION_MODEL_KEY@)),
        _ => metadata,
    }
}

/// Read the overlay in the metadata of a session.
pub fn get_session_model(metadata: &Json) -> (r: Option<SessionOverlay>)
    ensures
        overlay_option_view(r) == stored_overlay(metadata@),
{
    match metadata.get(SESSION_MODEL_KEY) {
        Some(Json::Object(members)) => read_overlay(members),
        _ => None,
    }
}

fn read_overlay(members: &StrMap<Json>) -> (r: Option<SessionOverlay>)
    ensures
        match r {
            Some(overlay) => all_text(json::object_view(*members)) && overlay_view(overlay)
                == member_texts(json::object_view(*members)),
            None => !all_text(json::object_view(*members)),
        },
{
    let ghost pairs = members.pairs();
    let ghost whole = json::object_view(*members);
    let n: usize = members.len();
    let mut r: SessionOverlay = StrMap::new();
    let mut i: usize = 0;
    proof {
        assert(pairs.take(0) =~= Seq::empty());
        assert(overlay_view(r) =~= member_texts(json::pairs_view(pairs.take(0))));
    }
    while i < n
        invariant
            i <= n,
            n == pairs.len(),
            pairs == members.pairs(),
            whole == json::object_view(*members),
            all_text(json::pairs_view(pairs.take(i as int))),
            overlay_view(r) == member_texts(json::pairs_view(pairs.take(i as int))),
        decreases n - i,
    {
        let (key, value) = members.pair(i);
        proof {
            assert(pairs.take(i + 1).drop_last() =~= pairs.take(i as int));
        }
        match value {
            Json::String(text) => {
                let ghost before = overlay_view(r);
                r.insert(key.as_str(), text.clone());
                proof {
                    let seen = json::pairs_view(pairs.take(i as int));
                    let now = json::pairs_view(pairs.take(i + 1));
                    assert(now == seen.insert(key@, value@));
                    assert(overlay_view(r) =~= before.insert(key@, text@));
                    assert(member_texts(now) =~= member_texts(seen).insert(key@, text@));
                }
            },
            _ => {
                proof {
                    json::lemma_object_view(*members);
                    assert(whole.contains_key(key@));
                    assert(!(whole[key@] is String));
                }
                return None;
            },
        }
        i += 1;
    }
    proof {
        assert(pairs.take(n as int) =~= pairs);
    }
    Some(r)
}

/// Write an overlay into the metadata of a session.
pub fn set_session_model(metadata: &mut Json, overlay: &SessionOverlay)
    ensures
        final(metadata)@ == with_overlay(old(metadata)@, overlay_view(*overlay)),
{
    let value = overlay_value(overlay);
    match metadata {
        Json::Object(members) => members.set_member(SESSION_MODEL_KEY, value),
        _ => {},
    }
}

fn overlay_value(overlay: &SessionOverlay) -> (r: Json)
    ensures
        r@ == overlay_json(overlay_view(*overlay)),
{
    let ghost pairs = overlay.pairs();
    let n: usize = overlay.len();
    let mut members: StrMap<Json> = StrMap::new();
    let mut i: usize = 0;
    proof {
        assert(pairs.take(0) =~= Seq::empty());
        assert(json::object_view(members) =~= Map::empty());
        assert(overlay_json(pairs_text(pairs.take(0)))->Object_0 =~= Map::empty());
    }
    while i < n
        invariant
            i <= n,
            n == pairs.len(),
            pairs == overlay.pairs(),
            JsonView::Object(json::object_view(members)) == overlay_json(
                pairs_text(pairs.take(i as int)),
            ),
        decreases n - i,
    {
        let (key, value) = overlay.pair(i);
        members.set_member(key.as_str(), Json::String(value.clone()));
        proof {
            let seen = pairs_text(pairs.take(i as int));
            lemma_pairs_text_step(pairs, i as int);
            assert(overlay_json(seen.insert(key@, value@))->Object_0 =~= overlay_json(
                seen,
            )->Object_0.insert(key@, JsonView::String(value@)));
        }
        i += 1;
    }
    proof {
        assert(pairs.take(n as int) =~= pairs);
    }
    Json::Object(members)
}

/// Take the overlay out of the metadata of a session.
pub fn clear_session_model(metadata: &mut Json)
    ensures
        final(metadata)@ == without_overlay(old(metadata)@),
{
    match metadata {
        Json::Object(members) => {
            let _ = members.take_member(SESSION_MODEL_KEY);
        },
        _ => {},
    }
}

/// The warning about a name that is none of a field.
pub open spec fn unknown_field_warning(name: Seq<char>) -> Seq<char> {
    "Unknown session-model field '"@ + name + "', ignored"@
}

/// The test whether a pair is of no field.
pub open spec fn of_no_field() -> spec_fn((String, String)) -> bool {
    |p: (String, String)| !is_field(p.0@)
}

/// The warnings about a list of pairs, in its order.
pub open spec fn field_warnings(pairs: Seq<(String, String)>) -> Seq<Seq<char>> {
    pairs.filter(of_no_field()).map_values(|p: (String, String)| unknown_field_warning(p.0@))
}

/// Part an overlay into the settings of fields and warnings about the others.
pub fn validate_session_model(overlay: &SessionOverlay) -> (r: (SessionOverlay, Vec<String>))
    ensures
        overlay_view(r.0) == valid_part(overlay_view(*overlay)),
        text::texts(r.1@) == field_warnings(overlay.pairs()),
{
    let ghost pairs = overlay.pairs();
    let n: usize = overlay.len();
    let mut valid: SessionOverlay = StrMap::new();
    let mut warnings: Vec<String> = Vec::new();
    let mut i: usize = 0;
    proof {
        assert(pairs.take(0) =~= Seq::empty());
        assert(overlay_view(valid) =~= valid_part(pairs_text(pairs.take(0))));
        assert(text::texts(warnings@) =~= field_warnings(pairs.take(0)));
    }
    while i < n
        invariant
            i <= n,
            n == pairs.len(),
            pairs == overlay.pairs(),
            strmap::distinct_keys(pairs),
            overlay_view(valid) == valid_part(pairs_text(pairs.take(i as int))),
            text::texts(warnings@) == field_warnings(pairs.take(i as int)),
        decreases n - i,
    {
        let (key, value) = overlay.pair(i);
        proof {
            lemma_pairs_text_step(pairs, i as int);
            lemma_new_key(pairs, i as int);
            assert(pairs.take(i + 1) =~= pairs.take(i as int).push(pairs[i as int]));
            pairs.take(i as int).lemma_filter_push(pairs[i as int], of_no_field());
        }
        let ghost seen = pairs_text(pairs.take(i as int));
        if is_session_model_field(key.as_str()) {
            let ghost before = overlay_view(valid);
            valid.insert(key.as_str(), value.clone());
            proof {
                assert(overlay_view(valid) =~= before.insert(key@, value@));
                assert(valid_part(seen.insert(key@, value@)) =~= valid_part(seen).insert(
                    key@,
                    value@,
                ));
            }
        } else {
            let ghost before = warnings@;
            let warning = concat3("Unknown session-model field '", key.as_str(), "', ignored");
            warnings.push(warning);
            proof {
                assert(valid_part(seen.insert(key@, value@)) =~= valid_part(seen));
                assert(text::texts(warnings@) =~= text::texts(before).push(
                    unknown_field_warning(key@),
                ));
                assert(field_warnings(pairs.take(i + 1)) =~= field_warnings(
                    pairs.take(i as int),
                ).push(unknown_field_warning(key@)));
            }
        }
        i += 1;
    }
    proof {
        assert(pairs.take(n as int) =~= pairs);
    }
    (valid, warnings)
}

/// To restore undoes an overlay, where the configuration had a value for every field of the
/// overlay: the configuration is as before, and the manager has no overlay.
pub proof fn law_restore_undoes_apply(
    before: ManagerView,
    config: Map<Seq<char>, Seq<char>>,
    overlay: Map<Seq<char>, Seq<char>>,
)
    requires
        overlay != Map::<Seq<char>, Seq<char>>::empty(),
        valid_part(overlay).dom().subset_of(config.dom()),
    ensures
        put_back(
            overlaid(config, overlay),
            after_apply(before, config, overlay).originals,
        ) == config,
        after_apply(before, config, overlay).active(),
        !no_overlay().active(),
        no_overlay().overlay is None,
{
    assert forall|k: Seq<char>| #[trigger] valid_part(overlay).contains_key(k) implies recorded(
        config,
        overlay,
    ).contains_key(k) by {
        assert(valid_part(overlay).dom().contains(k));
    }
    assert(put_back(overlaid(config, overlay), recorded(config, overlay)) =~= config);
}

/// To restore gives every value back that the configuration had before the overlay.
pub proof fn law_restore_gives_values_back(
    before: ManagerView,
    config: Map<Seq<char>, Seq<char>>,
    overlay: Map<Seq<char>, Seq<char>>,
    key: Seq<char>,
)
    requires
        overlay != Map::<Seq<char>, Seq<char>>::empty(),
        config.contains_key(key),
    ensures
        value_in(
            put_back(
                overlaid(config, overlay),
                after_apply(before, config, overlay).originals,
            ),
            key,
        ) == Some(config[key]),
{
    if valid_part(overlay).contains_key(key) {
        assert(recorded(config, overlay).contains_key(key));
    }
}

/// To restore twice changes no more than to restore once.
pub proof fn law_second_restore_sets_nothing(config: Map<Seq<char>, Seq<char>>)
    ensures
        put_back(config, no_overlay().originals) == config,
{
    assert(put_back(config, no_overlay().originals) =~= config);
}

/// Something that is done with a manager.
pub enum ManagerStep {
    /// An overlay is put over a configuration.
    Apply { config: Map<Seq<char>, Seq<char>>, overlay: Map<Seq<char>, Seq<char>> },
    /// The recorded values are put back.
    Restore,
}

/// What a manager knows after one step more.
pub open spec fn after_step(before: ManagerView, step: ManagerStep) -> ManagerView {
    match step {
        ManagerStep::Apply { config, overlay } => after_apply(before, config, overlay),
        ManagerStep::Restore => no_overlay(),
    }
}

/// What a new manager knows after some steps.
pub open spec fn after_steps(steps: Seq<ManagerStep>) -> ManagerView
    decreases steps.len(),
{
    if steps.len() == 0 {
        no_overlay()
    } else {
        after_step(after_steps(steps.drop_last()), steps.last())
    }
}

/// The last overlay that sets anything, with the configuration under it, unless the values were
/// put back since.
pub open spec fn pending(steps: Seq<ManagerStep>) -> Option<
    (Map<Seq<char>, Seq<char>>, Map<Seq<char>, Seq<char>>),
>
    decreases steps.len(),
{
    if steps.len() == 0 {
        None
    } else {
        match steps.last() {
            ManagerStep::Apply { config, overlay } => if overlay == Map::<
                Seq<char>,
                Seq<char>,
            >::empty() {
                pending(steps.drop_last())
            } else {
                Some((config, overlay))
            },
            ManagerStep::Restore => None,
        }
    }
}

/// Every manager that a new one becomes is consistent: it is active exactly when it has an
/// overlay, that is when an overlay that sets anything was applied and not restored since.
pub proof fn law_manager_is_active_with_an_overlay(steps: Seq<ManagerStep>)
    ensures
        after_steps(steps).consistent(),
        after_steps(steps).active() == (after_steps(steps).overlay is Some),
        after_steps(steps).active() == (pending(steps) is Some),
    decreases steps.len(),
{
    if steps.len() > 0 {
        law_manager_is_active_with_an_overlay(steps.drop_last());
    }
}

/// What is put back are exactly the values that were read under the last overlay, and none that
/// were read under an earlier one.
pub proof fn law_last_overlay_is_put_back(steps: Seq<ManagerStep>)
    ensures
        match pending(steps) {
            Some((config, overlay)) => {
                &&& after_steps(steps).overlay == Some(overlay)
                &&& after_steps(steps).originals == recorded(config, overlay)
            },
            None => after_steps(steps) == no_overlay(),
        },
    decreases steps.len(),
{
    if steps.len() > 0 {
        law_last_overlay_is_put_back(steps.drop_last());
    }
}

proof fn lemma_times_given(settings: Seq<(String, String)>, key: Seq<char>, value: Seq<char>)
    requires
        strmap::distinct_keys(settings),
    ensures
        settings.filter(gives(key, value)).len() == if value_in(pairs_text(settings), key) == Some(
            value,
        ) {
            1nat
        } else {
            0nat
        },
    decreases settings.len(),
{
    if settings.len() > 0 {
        let init = settings.drop_last();
        let n = settings.len() - 1;
        assert(strmap::distinct_keys(init));
        lemma_times_given(init, key, value);
        init.lemma_filter_push(settings.last(), gives(key, value));
        assert(init.push(settings.last()) =~= settings);
        lemma_pairs_text_step(settings, n);
        lemma_new_key(settings, n);
        assert(settings.take(n) =~= init);
        assert(settings.take(n + 1) =~= settings);
    } else {
        assert(settings.filter(gives(key, value)) =~= Seq::empty());
    }
}

/// The settings that restore a configuration give exactly once the value that was read under the
/// last overlay, for each of its fields that had one, and give no other value.
pub proof fn law_recorded_value_is_set_once(
    steps: Seq<ManagerStep>,
    settings: Seq<(String, String)>,
    key: Seq<char>,
    value: Seq<char>,
)
    requires
        sets_each_once(settings, after_steps(steps).originals),
    ensures
        settings.filter(gives(key, value)).len() == match pending(steps) {
            Some((config, overlay)) => if valid_part(overlay).contains_key(key) && value_in(
                config,
                key,
            ) == Some(value) {
                1nat
            } else {
                0nat
            },
            None => 0nat,
        },
        pending(steps) is None ==> settings.len() == 0,
{
    law_last_overlay_is_put_back(steps);
    lemma_times_given(settings, key, value);
    if pending(steps) is None && settings.len() > 0 {
        strmap::lemma_pairs_map_at(settings, 0);
        assert(pairs_text(settings).contains_key(settings[0].0@));
    }
}

/// Where an overlay holds a field, its setting is the one that holds.
pub proof fn law_overlay_takes_precedence(
    config: Map<Seq<char>, Seq<char>>,
    overlay: Map<Seq<char>, Seq<char>>,
    key: Seq<char>,
)
    requires
        overlay.contains_key(key),
        is_field(key),
    ensures
        value_in(overlaid(config, overlay), key) == Some(overlay[key]),
{
    assert(valid_part(overlay).contains_key(key));
}

/// An overlay changes no setting that it does not hold, and none that is no field.
pub proof fn law_overlay_keeps_other_settings(
    config: Map<Seq<char>, Seq<char>>,
    overlay: Map<Seq<char>, Seq<char>>,
    key: Seq<char>,
)
    requires
        !overlay.contains_key(key) || !is_field(key),
    ensures
        value_in(overlaid(config, overlay), key) == value_in(config, key),
{
}

/// An overlay that was written is read back.
pub proof fn law_overlay_is_read_back(metadata: JsonView, overlay: Map<Seq<char>, Seq<char>>)
    requires
        metadata is Object,
    ensures
        stored_overlay(with_overlay(metadata, overlay)) == Some(overlay),
{
    let members = overlay_json(overlay)->Object_0;
    assert(with_overlay(metadata, overlay).get(SESSION_MODEL_KEY@) == Some(overlay_json(overlay)));
    assert(all_text(members));
    assert(member_texts(members) =~= overlay);
}

/// After an overlay was taken out, there is none.
pub proof fn law_cleared_overlay_is_gone(metadata: JsonView)
    ensures
        stored_overlay(without_overlay(metadata)) is None,
{
}

/// To write or to take out an overlay changes no other member of the metadata.
pub proof fn law_overlay_keeps_other_members(
    metadata: JsonView,
    overlay: Map<Seq<char>, Seq<char>>,
    key: Seq<char>,
)
    requires
        key != SESSION_MODEL_KEY@,
    ensures
        with_overlay(metadata, overlay).get(key) == metadata.get(key),
        without_overlay(metadata).get(key) == metadata.get(key),
{
}

/// Every setting of an overlay is either kept or warned about.
pub proof fn law_validation_parts_overlay(overlay: SessionOverlay, i: int)
    requires
        0 <= i < overlay.pairs().len(),
    ensures
        ({
            let key = overlay.pairs()[i].0@;
            if is_field(key) {
                valid_part(overlay_view(overlay)).contains_key(key)
            } else {
                &&& !valid_part(overlay_view(overlay)).contains_key(key)
                &&& field_warnings(overlay.pairs()).contains(unknown_field_warning(key))
            }
        }),
{
    broadcast use vstd::seq_lib::group_filter_ensures;

    let pairs = overlay.pairs();
    let key = pairs[i].0@;
    strmap::lemma_pairs_map_dom(pairs, key);
    assert(strmap::key_at(pairs, i) == key);
    if !is_field(key) {
        let kept = pairs.filter(of_no_field());
        assert(of_no_field()(pairs[i]));
        assert(kept.contains(pairs[i]));
        let k = choose|k: int| 0 <= k < kept.len() && kept[k] == pairs[i];
        assert(field_warnings(pairs)[k] == unknown_field_warning(key));
    }
}

/// The settings that an overlay can hold are the model and the provider for plain work, for
/// thinking and for images.
pub proof fn law_fields_are_known(key: Seq<char>)
    ensures
        is_field(key) <==> key == "model"@ || key == "model_provider"@ || key == "model_thinking"@ || key
                == "model_thinking_provider"@ || key == "model_vlm"@ || key
                == "model_vlm_provider"@,
{
    let fields = SESSION_MODEL_FIELDS@;
    assert(fields.len() == 6);
    assert(fields[0]@ == "model"@);
    assert(fields[1]@ == "model_provider"@);
    assert(fields[2]@ == "model_thinking"@);
    assert(fields[3]@ == "model_thinking_provider"@);
    assert(fields[4]@ == "model_vlm"@);
    assert(fields[5]@ == "model_vlm_provider"@);
}

/// Of an overlay count the known settings only: they are the valid part of it, they replace what
/// the configuration holds, and what they replace is recorded.
pub proof fn law_known_settings_count(
    config: Map<Seq<char>, Seq<char>>,
    overlay: Map<Seq<char>, Seq<char>>,
    key: Seq<char>,
)
    ensures
        ({
            let counts = overlay.contains_key(key) && (key == "model"@ || key == "model_provider"@ || key == "model_thinking"@ || key
                == "model_thinking_provider"@ || key == "model_vlm"@ || key
                == "model_vlm_provider"@);
            let covered = overlaid(config, overlay);
            let saved = recorded(config, overlay);
            &&& valid_part(overlay).contains_key(key) <==> counts
            &&& counts ==> valid_part(overlay)[key] == overlay[key]
            &&& counts ==> covered.contains_key(key) && covered[key] == overlay[key]
            &&& !counts ==> covered.contains_key(key) == config.contains_key(key)
            &&& !counts && config.contains_key(key) ==> covered[key] == config[key]
            &&& saved.contains_key(key) <==> counts && config.contains_key(key)
            &&& saved.contains_key(key) ==> saved[key] == config[key]
        }),
{
    law_fields_are_known(key);
}

/// What is put back replaces what the configuration holds, and nothing else is touched.
pub proof fn law_recorded_values_are_put_back(
    config: Map<Seq<char>, Seq<char>>,
    originals: Map<Seq<char>, Seq<char>>,
    key: Seq<char>,
)
    ensures
        ({
            let after = put_back(config, originals);
            &&& after.contains_key(key) <==> config.contains_key(key) || originals.contains_key(key)
            &&& originals.contains_key(key) ==> after[key] == originals[key]
            &&& config.contains_key(key) && !originals.contains_key(key) ==> after[key]
                == config[key]
        }),
{
}

/// A manager keeps the last overlay that sets anything; one that sets nothing leaves it as it
/// was. It is active while it keeps one.
pub proof fn law_overlay_with_settings_is_kept(
    before: ManagerView,
    config: Map<Seq<char>, Seq<char>>,
    overlay: Map<Seq<char>, Seq<char>>,
    key: Seq<char>,
)
    ensures
        overlay.contains_key(key) ==> after_apply(before, config, overlay).overlay == Some(overlay)
            && after_apply(before, config, overlay).active(),
        overlay.contains_key(key) ==> after_apply(before, config, overlay).originals == recorded(
            config,
            overlay,
        ),
        after_apply(before, config, Map::empty()) == before,
        before.active() ==> before.overlay is Some && exists|k: Seq<char>| #[trigger]
            before.overlay->Some_0.contains_key(k),
        before.overlay is None ==> !before.active(),
        before.overlay matches Some(kept) ==> (kept.contains_key(key) ==> before.active()),
        no_overlay().originals.dom().is_empty() && no_overlay().overlay is None,
{
    if before.active() {
        let kept = before.overlay->Some_0;
        if forall|k: Seq<char>| !#[trigger] kept.contains_key(k) {
            assert(kept =~= Map::empty());
        }
    }
}

/// The metadata of a session holds an overlay exactly where there is an object of texts under the
/// key `session_model`, and the settings of the overlay are these texts.
pub proof fn law_overlay_stands_under_its_key(metadata: JsonView, key: Seq<char>)
    ensures
        match metadata.get("session_model"@) {
            Some(JsonView::Object(members)) => {
                &&& stored_overlay(metadata) is Some <==> forall|k: Seq<char>| #[trigger]
                    members.contains_key(k) ==> members[k].text() is Some
                &&& stored_overlay(metadata) matches Some(settings) ==> {
                    &&& settings.contains_key(key) <==> members.contains_key(key)
                    &&& settings.contains_key(key) ==> members[key] == JsonView::String(
                        settings[key],
                    )
                }
            },
            _ => stored_overlay(metadata) is None,
        },
{
    if let Some(JsonView::Object(members)) = metadata.get("session_model"@) {
        if forall|k: Seq<char>| #[trigger]
            members.contains_key(k) ==> members[k].text() is Some {
            assert forall|k: Seq<char>| #[trigger]
                members.contains_key(k) implies members[k] is String by {
                assert(members[k].text() is Some);
            }
            assert(all_text(members));
        }
    }
}

/// An overlay is written as an object of its settings, under the key `session_model`, and taken
/// out from there. What is no object stays as it is.
pub proof fn law_overlay_is_written_as_texts(
    metadata: JsonView,
    overlay: Map<Seq<char>, Seq<char>>,
    key: Seq<char>,
)
    ensures
        metadata is Object ==> {
            &&& with_overlay(metadata, overlay).get("session_model"@) matches Some(written)
            &&& written is Object
            &&& overlay.contains_key(key) ==> written.get_text(key) == Some(overlay[key])
            &&& !overlay.contains_key(key) ==> written.get(key) is None
        },
        without_overlay(metadata).get("session_model"@) is None,
        key != "session_model"@ ==> with_overlay(metadata, overlay).get(key) == metadata.get(key)
            && without_overlay(metadata).get(key) == metadata.get(key),
        !(metadata is Object) ==> with_overlay(metadata, overlay) == metadata && without_overlay(
            metadata,
        ) == metadata,
{
}

/// A setting adds a warning that names it, behind the others, exactly where it is not known.
pub proof fn law_unknown_settings_are_warned_about(
    pairs: Seq<(String, String)>,
    pair: (String, String),
)
    ensures
        ({
            let key = pair.0@;
            let known = key == "model"@ || key == "model_provider"@ || key == "model_thinking"@ || key
                == "model_thinking_provider"@ || key == "model_vlm"@ || key
                == "model_vlm_provider"@;
            &&& known ==> field_warnings(pairs.push(pair)) == field_warnings(pairs)
            &&& !known ==> field_warnings(pairs.push(pair)) == field_warnings(pairs).push(
                "Unknown session-model field '"@ + key + "', ignored"@,
            )
        }),
        field_warnings(Seq::empty()).len() == 0,
{
    law_fields_are_known(pair.0@);
    pairs.lemma_filter_push(pair, of_no_field());
    assert(Seq::<(String, String)>::empty().filter(of_no_field()) =~= Seq::empty()) by {
        reveal(Seq::filter);
    }
    if is_field(pair.0@) {
        assert(field_warnings(pairs.push(pair)) =~= field_warnings(pairs));
    } else {
        assert(field_warnings(pairs.push(pair)) =~= field_warnings(pairs).push(
            unknown_field_warning(pair.0@),
        ));
    }
}

/// A list that sets each of some values once names each of their keys at one place, with the
/// value of that key, and no other key.
pub proof fn law_each_value_is_set_at_one_place(
    settings: Seq<(String, String)>,
    values: Map<Seq<char>, Seq<char>>,
    key: Seq<char>,
    i: int,
    j: int,
)
    requires
        sets_each_once(settings, values),
        0 <= i < settings.len(),
        0 <= j < settings.len(),
    ensures
        settings[i].0@ == settings[j].0@ ==> i == j,
        values.contains_key(settings[i].0@) && values[settings[i].0@] == settings[i].1@,
        values.contains_key(key) ==> exists|k: int|
            0 <= k < settings.len() && (#[trigger] settings[k]).0@ == key,
{
    strmap::lemma_pairs_map_at(settings, i);
    strmap::lemma_pairs_map_dom(settings, key);
    if i < j {
        assert(settings[i].0@ != settings[j].0@);
    } else if j < i {
        assert(settings[j].0@ != settings[i].0@);
    }
    if values.contains_key(key) {
        let k = choose|k: int|
            0 <= k < settings.len() && #[trigger] strmap::key_at(settings, k) == key;
        assert(settings[k].0@ == key);
    }
}

/// The settings of an overlay are the texts that it maps its names to.
pub proof fn law_overlay_shows_its_texts(overlay: SessionOverlay, key: Seq<char>)
    ensures
        overlay_view(overlay).contains_key(key) <==> overlay@.contains_key(key),
        overlay@.contains_key(key) ==> overlay_view(overlay)[key] == overlay@[key]@,
        overlay_option_view(Some(overlay)) == Some(overlay_view(overlay)),
        overlay_option_view(None) is None,
{
}

/// What was read came from a call on the key, and what was set went into a call on the key and
/// the value.
pub proof fn law_calls_are_on_the_key<G: Fn(&str) -> Option<String>, S: Fn(&str, &str)>(
    get: G,
    set: S,
    key: Seq<char>,
    value: Seq<char>,
)
    ensures
        was_set(set, key, value) ==> exists|k: &str, v: &str|
            k@ == key && v@ == value && #[trigger] call_ensures(set, (k, v), ()),
        can_read(get, key, Some(value)) ==> exists|k: &str, r: Option<String>|
            k@ == key && #[trigger] call_ensures(get, (k,), r) && (r matches Some(s) && s@
                == value),
        can_read(get, key, None) ==> exists|k: &str, r: Option<String>|
            k@ == key && #[trigger] call_ensures(get, (k,), r) && r is None,
{
}

/// A configuration is read exactly where every answer is the value under the key that was asked
/// for, or nothing where there is none.
pub proof fn law_answers_come_from_the_configuration<G: Fn(&str) -> Option<String>>(
    get: G,
    config: Map<Seq<char>, Seq<char>>,
)
    ensures
        reads(get, config) <==> forall|k: &str, r: Option<String>| #[trigger]
            call_ensures(get, (k,), r) ==> match r {
                Some(value) => config.contains_key(k@) && config[k@] == value@,
                None => !config.contains_key(k@),
            },
{
    if forall|k: &str, r: Option<String>| #[trigger]
        call_ensures(get, (k,), r) ==> match r {
            Some(value) => config.contains_key(k@) && config[k@] == value@,
            None => !config.contains_key(k@),
        } {
        assert forall|k: &str, r: Option<String>| #[trigger] call_ensures(get, (k,), r) implies
            text::string_chars(r) == value_in(config, k@) by {
        }
    }
    if reads(get, config) {
        assert forall|k: &str, r: Option<String>| #[trigger] call_ensures(get, (k,), r) implies (
        match r {
            Some(value) => config.contains_key(k@) && config[k@] == value@,
            None => !config.contains_key(k@),
        }) by {
            assert(text::string_chars(r) == value_in(config, k@));
        }
    }
}

} // verus!
