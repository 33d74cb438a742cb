use beekeeper::atomic::{
    Atomic, AtomicAny, AtomicBool, AtomicNumber, AtomicOption, AtomicU32, AtomicU64, AtomicUsize,
    MutError,
};

#[test]
fn test_atomic_u32() {
    let mut a = AtomicU32::from(42);
    assert_eq!(a.get(), 42);
    assert_eq!(a.set(43), 42);
    assert_eq!(a.get(), 43);
    assert_eq!(a.set_when(43, 44), 43);
    assert_eq!(a.get(), 44);
    assert_eq!(a.set_when(43, 45), 44);
    assert_eq!(a.get(), 44);
    assert_eq!(a.set_with(|val| Some(val + 1)), 44);
    assert_eq!(a.get(), 45);
    assert_eq!(a.set_with(|_| None), 45);
    assert_eq!(a.get(), 45);
    assert_eq!(a.add(1), 45);
    assert_eq!(a.get(), 46);
    assert_eq!(a.sub(1), 46);
    assert_eq!(a.get(), 45);
    let b = a.clone();
    assert_eq!(b.into_inner(), 45);
}

#[test]
fn test_atomic_u64() {
    let mut a = AtomicU64::from(42);
    assert_eq!(a.get(), 42);
    assert_eq!(a.set(43), 42);
    assert_eq!(a.get(), 43);
    assert_eq!(a.set_when(43, 44), 43);
    assert_eq!(a.get(), 44);
    assert_eq!(a.set_when(43, 45), 44);
    assert_eq!(a.get(), 44);
    assert_eq!(a.set_with(|val| Some(val + 1)), 44);
    assert_eq!(a.get(), 45);
    assert_eq!(a.set_with(|_| None), 45);
    assert_eq!(a.get(), 45);
    assert_eq!(a.add(1), 45);
    assert_eq!(a.get(), 46);
    assert_eq!(a.sub(1), 46);
    assert_eq!(a.get(), 45);
    let b = a.clone();
    assert_eq!(b.into_inner(), 45);
}

#[test]
fn test_atomic_usize() {
    let mut a = AtomicUsize::from(42);
    assert_eq!(a.get(), 42);
    assert_eq!(a.set(43), 42);
    assert_eq!(a.get(), 43);
    assert_eq!(a.set_when(43, 44), 43);
    assert_eq!(a.get(), 44);
    assert_eq!(a.set_when(43, 45), 44);
    assert_eq!(a.get(), 44);
    assert_eq!(a.set_with(|val| Some(val + 1)), 44);
    assert_eq!(a.get(), 45);
    assert_eq!(a.set_with(|_| None), 45);
    assert_eq!(a.get(), 45);
    assert_eq!(a.add(1), 45);
    assert_eq!(a.get(), 46);
    assert_eq!(a.sub(1), 46);
    assert_eq!(a.get(), 45);
    let b = a.clone();
    assert_eq!(b.into_inner(), 45);
}

#[test]
fn test_atomic_number_wraps() {
    let mut a = AtomicU32::new(u32::MAX);
    assert_eq!(a.add(2), u32::MAX);
    assert_eq!(a.get(), 1);
    assert_eq!(a.sub(2), 1);
    assert_eq!(a.get(), u32::MAX);
    let mut b = AtomicU64::default();
    assert_eq!(b.sub(1), 0);
    assert_eq!(b.get(), u64::MAX);
    let mut c = AtomicUsize::default();
    assert_eq!(c.add(usize::MAX), 0);
    assert_eq!(c.add(1), usize::MAX);
    assert_eq!(c.into_inner(), 0);
}

#[test]
fn test_atomic_bool() {
    let mut a = AtomicBool::from(false);
    assert!(!a.get());
    assert!(!a.set(true));
    assert!(a.get());
    assert!(a.set_when(false, false));
    assert!(a.get());
    assert!(a.set_when(true, false));
    assert!(!a.get());
    assert!(!a.set_with(|val| Some(!val)));
    assert!(a.get());
    assert!(a.set_with(|_| None));
    assert!(a.clone().into_inner());
    assert!(!AtomicBool::default().get());
}

#[test]
fn test_atomic_any() {
    let mut a = AtomicAny::from("hello".to_string());
    assert_eq!(a.get(), "hello");
    assert_eq!(a.set("world".into()), "hello");
    assert_eq!(a.set_with(|val| Some(val.to_uppercase())), "world");
    assert_eq!(a.get(), "WORLD");
    assert_eq!(a.set_with(|_| None), "WORLD");
    assert_eq!(a.get(), "WORLD");
    assert_eq!(a.set_when("WORLD".into(), "world".into()), "WORLD");
    assert_eq!(a.get(), "world");
    assert_eq!(a.set_when("hello".into(), "HELLO".into()), "world");
    assert_eq!(a.get(), "world");
    let b = a.clone();
    assert_eq!(b.into_inner(), "world");
}

#[test]
fn test_atomic_option_default() {
    let mut a: AtomicOption<String, AtomicAny<String>> = AtomicOption::default();
    assert_eq!(a.get(), None);
    assert_eq!(a.set(Some("hello".into())), None);
    assert_eq!(a.get(), Some("hello".into()));
    assert_eq!(a.set(None), Some("hello".into()));
}

#[test]
fn test_atomic_option_new() {
    let mut a: AtomicOption<String, AtomicAny<String>> =
        AtomicOption::Unsync(Some("hello".into()));
    assert_eq!(a.get(), Some("hello".into()));
    assert_eq!(a.set(Some("world".into())), Some("hello".into()));
    assert_eq!(a.get(), Some("world".into()));
    assert_eq!(a.set(None), Some("world".into()));
}

#[test]
fn test_atomic_option_none_into_sync() {
    let a: AtomicOption<String, AtomicAny<String>> = AtomicOption::default();
    let mut b = a.into_sync();
    assert_eq!(b.get(), None);
    assert_eq!(b.get_or_default(), String::default());
    assert_eq!(b.set(Some("hello".into())), None);
    assert_eq!(b.get(), Some("hello".into()));
}

#[test]
fn test_atomic_option_none_into_sync_default() {
    let a: AtomicOption<String, AtomicAny<String>> = AtomicOption::default();
    let mut b = a.into_sync_default();
    assert_eq!(b.get(), Some(String::default()));
    assert_eq!(b.set(Some("hello".into())), Some(String::default()));
    assert_eq!(b.get(), Some("hello".into()));
    let mut c = b.clone();
    let d = b.into_sync_default();
    assert_eq!(c, d);
    assert_eq!(c.set(None), Some("hello".into()));
    assert_eq!(c.get(), None);
}

#[test]
fn test_atomic_option_sync_into_unsync() {
    let a: AtomicOption<String, AtomicAny<String>> = AtomicOption::Unsync(Some("hello".into()));
    assert_eq!(a.get(), Some("hello".into()));
    let b = a.into_sync();
    assert_eq!(b.get(), Some("hello".into()));
    let c = b.clone();
    let d = b.into_sync();
    assert_eq!(c, d);
    let e = d.into_unsync();
    assert_eq!(e.get(), Some("hello".into()));
    let f = e.clone();
    let g = e.into_unsync();
    assert_eq!(f, g);
}

#[test]
fn test_atomic_option_numeric() {
    let mut a: AtomicOption<u32, AtomicU32> = AtomicOption::default();
    assert_eq!(a.get(), None);
    assert_eq!(a.set(Some(42)), None);
    assert_eq!(a.get(), Some(42));
    assert_eq!(a.set(None), Some(42));
    assert_eq!(a.get(), None);
}

#[test]
fn test_atomic_option_numeric_ops() {
    let a: AtomicOption<u32, AtomicU32> = AtomicOption::Unsync(Some(42));
    let mut b = a.into_sync();
    assert!(matches!(b.add(1), Ok(42)));
    assert_eq!(b.get(), Some(43));
    assert!(matches!(b.set_max(44), Ok(43)));
    assert_eq!(b.get(), Some(44));
}

#[test]
fn test_atomic_option_set_max_keeps_larger() {
    let a: AtomicOption<usize, AtomicUsize> = AtomicOption::Unsync(Some(8));
    let mut b = a.into_sync();
    assert!(matches!(b.set_max(4), Ok(8)));
    assert_eq!(b.get(), Some(8));
    assert!(matches!(b.set_max(8), Ok(8)));
    assert_eq!(b.get(), Some(8));
    assert!(matches!(b.add(usize::MAX), Ok(8)));
    assert_eq!(b.get(), Some(7));
}

#[test]
fn test_atomic_option_unsync() {
    let mut a: AtomicOption<u32, AtomicU32> = AtomicOption::default();
    assert!(matches!(a.add(1), Err(MutError::Unsync)));
    assert!(matches!(a.set_max(1), Err(MutError::Unsync)));
}

#[test]
fn test_atomic_option_unset() {
    let a: AtomicOption<u32, AtomicU32> = AtomicOption::default();
    let mut b = a.into_sync();
    assert!(matches!(b.add(1), Err(MutError::Unset)));
    assert!(matches!(b.set_max(1), Err(MutError::Unset)));
}

#[test]
fn test_try_update_with() {
    let mut a: AtomicOption<String, AtomicAny<String>> = AtomicOption::default();
    a.set(Some("hello".into()));
    let mut b = a.into_sync();
    assert_eq!(b.try_update_with(|_| None).unwrap(), "hello");
    assert_eq!(b.get(), Some("hello".into()));
    assert_eq!(
        b.try_update_with(|_| Some("world".into())).unwrap(),
        "hello"
    );
    assert_eq!(b.get(), Some("world".into()));
}

#[test]
fn test_try_update_with_unset() {
    let mut a: AtomicOption<String, AtomicAny<String>> = AtomicOption::default();
    assert!(matches!(a.try_update_with(|_| None), Err(MutError::Unsync)));
    let mut b = a.into_sync();
    assert!(matches!(b.try_update_with(|_| None), Err(MutError::Unset)));
}

#[test]
fn test_mut_error_message() {
    assert_eq!(
        MutError::Unsync.message(),
        "cannot use interior mutability to modify value in Unsync variant"
    );
    assert_eq!(
        MutError::Unset.message(),
        "cannot use interior mutability to modify value in an unset Sync variant"
    );
}

#[test]
fn test_atomic_option_into_unsync_keeps_value() {
    let a: AtomicOption<u64, AtomicU64> = AtomicOption::Unsync(Some(7));
    let mut b = a.into_sync();
    assert!(matches!(b.add(3), Ok(7)));
    let mut c = b.into_unsync();
    assert!(matches!(c, AtomicOption::Unsync(Some(10))));
    assert!(matches!(c.add(1), Err(MutError::Unsync)));
    assert_eq!(c.get_or_default(), 10);
    let d: AtomicOption<u64, AtomicU64> = AtomicOption::default();
    assert_eq!(d.get_or_default(), 0);
}
