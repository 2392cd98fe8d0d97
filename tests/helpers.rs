use delphi::{bytes_eq, contains_id, id_list_bytes, push_unique_id, without_id, AccountId, Key, Table};

fn b(s: &str) -> Vec<u8> {
    s.as_bytes().to_vec()
}

#[test]
fn bytes_eq_compares_contents() {
    assert!(bytes_eq(&b("abc"), &b("abc")));
    assert!(!bytes_eq(&b("abc"), &b("abd")));
    assert!(!bytes_eq(&b("ab"), &b("abc")));
    assert!(bytes_eq(&b(""), &b("")));
}

#[test]
fn account_ids_compare_all_bytes() {
    let mut x = [7u8; 32];
    let a = AccountId::new(x);
    x[31] = 8;
    let c = AccountId::new(x);
    assert!(a.same(&AccountId::new([7u8; 32])));
    assert!(!a.same(&c));
}

#[test]
fn id_list_helpers() {
    let mut ids = vec![b("a"), b("b"), b("a"), b("c")];
    assert!(contains_id(&ids, &b("c")));
    assert!(!contains_id(&ids, &b("d")));
    let w = without_id(&ids, &b("a"));
    assert_eq!(w, vec![b("b"), b("c")]);
    push_unique_id(&mut ids, b("b"));
    assert_eq!(ids.len(), 4);
    push_unique_id(&mut ids, b("d"));
    assert_eq!(ids.len(), 5);
    assert_eq!(id_list_bytes(&w), b("b#c#"));
}

#[test]
fn table_insert_get_remove() {
    let mut t: Table<Vec<u8>, Vec<u8>> = Table::new();
    t.insert(b("k"), b("v1"));
    t.insert(b("k"), b("v2"));
    t.insert(b("j"), b("w"));
    assert_eq!(t.get(&b("k")), Some(&b("v2")));
    assert_eq!(t.remove(&b("k")), Some(b("v2")));
    assert_eq!(t.get(&b("k")), None);
    assert_eq!(t.get(&b("j")), Some(&b("w")));
    assert_eq!(t.remove(&b("k")), None);
}
