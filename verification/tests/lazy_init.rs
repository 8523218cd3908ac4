use opendev::lazy_init::{create_lazy_subsystems, LazySubsystem, SyncLazy};
use std::cell::Cell;

#[test]
fn test_lazy_init_on_first_use() {
    let mut lazy: LazySubsystem<String> = LazySubsystem::new("test");
    assert!(!lazy.is_initialized());
    assert!(lazy.try_get().is_none());

    let value = lazy.get(|| "hello".to_string());
    assert_eq!(value, "hello");
    assert!(lazy.is_initialized());
}

#[test]
fn test_lazy_init_only_once() {
    let counter = Cell::new(0u32);
    let mut lazy: LazySubsystem<u32> = LazySubsystem::new("counter");

    let v1 = *lazy.get(|| {
        counter.set(counter.get() + 1);
        42
    });
    let v2 = *lazy.get(|| {
        counter.set(counter.get() + 1);
        99
    });

    assert_eq!(v1, 42);
    assert_eq!(v2, 42);
    assert_eq!(counter.get(), 1);
}

#[test]
fn test_lazy_fallible_init_success() {
    let mut lazy: LazySubsystem<String> = LazySubsystem::new("fallible");

    let result: Result<&String, &str> = lazy.get_or_try_init(|| Ok("success".to_string()));

    assert_eq!(result.unwrap(), "success");
    assert!(lazy.is_initialized());
}

#[test]
fn test_lazy_fallible_init_failure_allows_retry() {
    let mut lazy: LazySubsystem<String> = LazySubsystem::new("retry");
    let counter = Cell::new(0u32);

    let result: Result<&String, String> = lazy.get_or_try_init(|| {
        counter.set(counter.get() + 1);
        Err("fail".to_string())
    });
    assert!(result.is_err());
    assert!(!lazy.is_initialized());

    let result: Result<&String, String> = lazy.get_or_try_init(|| {
        counter.set(counter.get() + 1);
        Ok("ok".to_string())
    });
    assert_eq!(result.unwrap(), "ok");
    assert!(lazy.is_initialized());
    assert_eq!(counter.get(), 2);

    let result: Result<&String, String> = lazy.get_or_try_init(|| Err("late".to_string()));
    assert_eq!(result.unwrap(), "ok");
}

#[test]
fn test_lazy_name() {
    let lazy: LazySubsystem<()> = LazySubsystem::new("MySubsystem");
    assert_eq!(lazy.name(), "MySubsystem");
}

#[test]
fn test_create_lazy_subsystems() {
    let (lsp, mcp, emb) = create_lazy_subsystems::<String, String, String>();
    assert_eq!(lsp.name(), "LSP");
    assert_eq!(mcp.name(), "MCP");
    assert_eq!(emb.name(), "Embeddings");
    assert!(!lsp.is_initialized());
    assert!(!mcp.is_initialized());
    assert!(!emb.is_initialized());
}

#[test]
fn test_sync_lazy_init() {
    let mut lazy = SyncLazy::new("sync-test");
    assert!(!lazy.is_initialized());

    let val = lazy.get_or_init(|| 42u32);
    assert_eq!(*val, 42);
    assert!(lazy.is_initialized());

    let val2 = lazy.get_or_init(|| 99);
    assert_eq!(*val2, 42);
}

#[test]
fn test_sync_lazy_try_get() {
    let mut lazy = SyncLazy::new("sync-try");
    assert!(lazy.try_get().is_none());

    lazy.get_or_init(|| "hello");
    assert_eq!(*lazy.try_get().unwrap(), "hello");
}

#[test]
fn test_sync_lazy_name() {
    let lazy = SyncLazy::<()>::new("test-name");
    assert_eq!(lazy.name(), "test-name");
}

#[test]
fn test_sync_lazy_debug_format() {
    let lazy = SyncLazy::<u32>::new("sync-dbg");
    let debug_str = format!("{:?}", lazy);
    assert!(debug_str.contains("SyncLazy"));
    assert!(debug_str.contains("sync-dbg"));
}

#[test]
fn test_lazy_debug_format() {
    let mut lazy: LazySubsystem<u32> = LazySubsystem::new("dbg");
    let debug_str = format!("{:?}", lazy);
    assert!(debug_str.contains("LazySubsystem"));
    assert!(debug_str.contains("dbg"));
    assert!(debug_str.contains("false"));
    assert_eq!(debug_str, "LazySubsystem { name: \"dbg\", initialized: false }");

    let _ = lazy.get(|| 1);
    let debug_str = format!("{:?}", lazy);
    assert!(debug_str.contains("true"));
    assert_eq!(debug_str, "LazySubsystem { name: \"dbg\", initialized: true }");
}

#[test]
fn lazy_values_are_not_shown() {
    let mut lazy = SyncLazy::new("a\"b");
    lazy.get_or_init(|| 42u32);
    assert_eq!(
        format!("{:?}", lazy),
        "SyncLazy { name: \"a\\\"b\", initialized: true }"
    );
}
