use netconsole::cstr::CStr;
use netconsole::driver::attribute::PAGE_SIZE;
use netconsole::driver::entry::{append_entry, write_entry};
use netconsole::driver::userdata::{Userdata, UserdataCache, UserdataEntry};
use netconsole::error::{Error, EEXIST, EINVAL, ENOENT, ENOMEM, ENOSPC};

fn value(u: &Userdata, key: &[u8]) -> Vec<u8> {
    let mut out = [0u8; 200];
    let n = u.get_value(key, &mut out);
    out[..n].to_vec()
}

fn shown(entry: &UserdataEntry, u: &Userdata) -> Vec<u8> {
    let mut page = [0u8; PAGE_SIZE];
    let n = entry.show(u, &mut page);
    page[..n].to_vec()
}

#[test]
fn entry_lines() {
    let mut v = b"x".to_vec();
    append_entry(&mut v, b"key", b"value");
    assert_eq!(v, b"x key=value\n");
    let mut buf = [b'.'; 12];
    assert_eq!(write_entry(&mut buf, b"key", b"value"), 11);
    assert_eq!(&buf, b" key=value\n.");
    let mut small = [b'.'; 10];
    assert_eq!(write_entry(&mut small, b"key", b"value"), 0);
    assert_eq!(&small, b"..........");
    let mut none: [u8; 0] = [];
    assert_eq!(write_entry(&mut none, b"", b""), 0);
}

#[test]
fn values_are_set_and_read() {
    let mut u = Userdata::new();
    let mut cache = UserdataCache::new();
    assert_eq!(u.add_entry(b"a"), Ok(()));
    assert_eq!(u.add_entry(b"b"), Ok(()));
    assert_eq!(u.add_entry(b"a"), Err(Error(EEXIST)));
    assert_eq!(u.entry_count, 2);
    assert_eq!(u.set_value(b"a", b"one", &mut cache), Ok(()));
    assert_eq!(value(&u, b"a"), b"one");
    assert_eq!(value(&u, b"b"), b"");
    assert_eq!(value(&u, b"c"), b"");
    assert_eq!(u.set_value(b"c", b"x", &mut cache), Err(Error(ENOENT)));
    assert_eq!(u.set_value(b"a", b"a shorter", &mut cache), Ok(()));
    assert_eq!(u.set_value(b"a", b"two", &mut cache), Ok(()));
    assert_eq!(value(&u, b"a"), b"two");
    u.remove_entry(b"a");
    u.remove_entry(b"a");
    assert_eq!(u.entry_count, 1);
    assert_eq!(value(&u, b"a"), b"");
    assert_eq!(u.set_value(b"a", b"x", &mut cache), Err(Error(ENOENT)));
}

#[test]
fn values_have_a_limit() {
    let mut u = Userdata::new();
    let mut cache = UserdataCache::new();
    u.add_entry(b"k").unwrap();
    assert_eq!(u.set_value(b"k", &[b'x'; 201], &mut cache), Err(Error(EINVAL)));
    assert_eq!(u.set_value(b"none", &[b'x'; 201], &mut cache), Err(Error(ENOENT)));
    assert_eq!(value(&u, b"k"), b"");
    assert_eq!(u.set_value(b"k", &[b'x'; 200], &mut cache), Ok(()));
    assert_eq!(value(&u, b"k"), [b'x'; 200]);
}

#[test]
fn memory_can_run_out() {
    let mut u = Userdata::new();
    assert_eq!(u.add_reserved(b"k", false), Err(Error(ENOMEM)));
    assert_eq!(u.entry_count, 0);
    assert_eq!(u.add_reserved(b"k", true), Ok(()));
    assert_eq!(u.add_reserved(b"k", false), Err(Error(EEXIST)));
    assert_eq!(
        u.make_group_reserved(&CStr::from_ascii("l"), false).err(),
        Some(Error(ENOMEM))
    );
}

#[test]
fn cache_holds_the_entries_with_values() {
    let mut u = Userdata::new();
    let mut cache = UserdataCache::new();
    for key in [&b"a"[..], b"b", b"c"] {
        u.add_entry(key).unwrap();
    }
    assert_eq!(u.text_len(), Some(0));
    u.set_value(b"c", b"3", &mut cache).unwrap();
    u.set_value(b"a", b"1", &mut cache).unwrap();
    assert_eq!(cache.data.as_deref(), Some(&b" a=1\n c=3\n"[..]));
    assert_eq!(cache.len, 10);
    assert_eq!(u.text_len(), Some(10));
    u.set_value(b"a", b"", &mut cache).unwrap();
    assert_eq!(cache.data.as_deref(), Some(&b" c=3\n"[..]));
    u.set_value(b"c", b"", &mut cache).unwrap();
    assert!(cache.data.is_none());
    assert_eq!(cache.len, 0);
}

#[test]
fn cache_stays_where_there_is_no_memory() {
    let mut u = Userdata::new();
    let mut cache = UserdataCache::new();
    u.add_entry(b"k").unwrap();
    u.set_value(b"k", b"old", &mut cache).unwrap();
    assert_eq!(u.replace_value(b"k", b"new"), Ok(()));
    u.fill_cache(None, &mut cache);
    assert_eq!(cache.data.as_deref(), Some(&b" k=old\n"[..]));
    u.fill_cache(Some(Vec::new()), &mut cache);
    assert_eq!(cache.data.as_deref(), Some(&b" k=new\n"[..]));
    u.replace_value(b"k", b"").unwrap();
    u.fill_cache(None, &mut cache);
    assert!(cache.data.is_none());
}

#[test]
fn groups_are_entries() {
    let mut u = Userdata::new();
    let mut cache = UserdataCache::new();
    let entry = u.make_group(&CStr::from_ascii("hostname")).unwrap();
    assert_eq!(entry.key_bytes(), b"hostname");
    assert_eq!(shown(&entry, &u), b"\n");
    assert_eq!(entry.store(&mut u, &mut cache, b"node-1\r\n"), Ok(()));
    assert_eq!(shown(&entry, &u), b"node-1\n");
    assert_eq!(cache.data.as_deref(), Some(&b" hostname=node-1\n"[..]));
    let line = shown(&entry, &u);
    assert_eq!(entry.store(&mut u, &mut cache, &line), Ok(()));
    assert_eq!(value(&u, b"hostname"), b"node-1");
    assert_eq!(entry.store(&mut u, &mut cache, &[b'x'; 201]), Err(Error(EINVAL)));
    let mut long = [b'x'; 201];
    long[200] = b'\n';
    assert_eq!(entry.store(&mut u, &mut cache, &long), Ok(()));
    u.drop_item(&mut cache);
    assert_eq!(u.entry_count, 1);
    u.remove_entry(b"hostname");
    assert_eq!(entry.store(&mut u, &mut cache, b"x"), Err(Error(ENOENT)));
    assert_eq!(shown(&entry, &u), b"\n");
    u.drop_item(&mut cache);
    assert!(cache.data.is_none());
}

#[test]
fn group_names_have_a_limit() {
    let mut u = Userdata::new();
    let long = CStr::from_bytes(&[b'k'; 54]).unwrap();
    assert_eq!(u.make_group(&long).err(), Some(Error(EINVAL)));
    let fits = CStr::from_bytes(&[b'k'; 53]).unwrap();
    assert_eq!(u.make_group(&fits).unwrap().key_bytes(), [b'k'; 53]);
    assert_eq!(u.make_group(&fits).err(), Some(Error(EEXIST)));
    assert_eq!(UserdataEntry::new(&long).key_bytes(), [b'k'; 54]);
}

#[test]
fn groups_have_a_limit() {
    let mut u = Userdata::new();
    for i in 0..256 {
        let name = format!("key{}", i);
        assert!(u.make_group(&CStr::from_bytes(name.as_bytes()).unwrap()).is_ok());
    }
    let more = CStr::from_ascii("key256");
    assert_eq!(u.make_group(&more).err(), Some(Error(ENOSPC)));
    assert_eq!(u.make_group(&CStr::from_ascii("key0")).err(), Some(Error(ENOSPC)));
    u.remove_entry(b"key7");
    assert!(u.make_group(&more).is_ok());
    assert_eq!(u.entry_count, 256);
}
