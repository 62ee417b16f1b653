use indexmap::IndexMap;
use tabled::builder::Builder;
use unipac::package::Package;

fn strings(v: &[&str]) -> Vec<String> {
    v.iter().map(|s| s.to_string()).collect()
}

fn rows(t: tabled::Table) -> Vec<Vec<String>> {
    Builder::from(t).into()
}

#[test]
fn from_fields_pairs_names_with_values() {
    let p = Package::from_fields(&strings(&["Id", "Version"]), &strings(&["vim", "9.0"]));
    assert_eq!(p.len(), 2);
    assert_eq!(p.get("Id").unwrap(), "vim");
    assert_eq!(p.get("Version").unwrap(), "9.0");
    assert!(p.get("Other").is_none());
    assert_eq!(p.keys(), strings(&["Id", "Version"]));
    assert_eq!(p.values(), strings(&["vim", "9.0"]));
}

#[test]
fn from_fields_stops_at_the_shorter_list() {
    let p = Package::from_fields(&strings(&["Id", "Version", "Repo"]), &strings(&["vim"]));
    assert_eq!(p.entries(), vec![("Id".to_string(), "vim".to_string())]);
}

#[test]
fn from_fields_repeated_name_keeps_place_and_last_value() {
    let p = Package::from_fields(&strings(&["Id", "Version", "Id"]), &strings(&["a", "1", "b"]));
    assert_eq!(
        p.entries(),
        vec![("Id".to_string(), "b".to_string()), ("Version".to_string(), "1".to_string())]
    );
}

#[test]
fn new_keeps_the_map() {
    let mut m = IndexMap::new();
    m.insert("Id".to_string(), "git".to_string());
    let p = Package::new(m);
    assert_eq!(p.get("Id").unwrap(), "git");
}

#[test]
fn list_into_tab_heads_with_first_keys() {
    let a = Package::from_fields(&strings(&["Id", "Version"]), &strings(&["vim", "9.0"]));
    let b = Package::from_fields(&strings(&["Id", "Version", "Extra"]), &strings(&["git", "2", "x"]));
    let t = Package::list_into_tab(vec![a, b]);
    assert_eq!(
        rows(t),
        vec![strings(&["Id", "Version", ""]), strings(&["vim", "9.0", ""]), strings(&["git", "2", "x"])]
    );
}

#[test]
fn list_into_tab_of_nothing_is_empty() {
    assert_eq!(rows(Package::list_into_tab(Vec::new())), Vec::<Vec<String>>::new());
}

#[test]
fn into_tab_one_row_per_field() {
    let p = Package::from_fields(&strings(&["Id", "Version"]), &strings(&["vim", "9.0"]));
    assert_eq!(rows(p.into_tab()), vec![strings(&["Id", "vim"]), strings(&["Version", "9.0"])]);
}

#[test]
fn clone_keeps_fields_and_order() {
    let p = Package::from_fields(&strings(&["B", "A"]), &strings(&["2", "1"]));
    let q = p.clone();
    assert_eq!(q.entries(), p.entries());
    assert_eq!(q.keys(), strings(&["B", "A"]));
}

#[test]
fn default_is_empty_and_equality_ignores_order() {
    assert_eq!(Package::default().len(), 0);
    assert_eq!(Package::default(), Package::new(IndexMap::new()));
    let p = Package::from_fields(&strings(&["A", "B"]), &strings(&["1", "2"]));
    let q = Package::from_fields(&strings(&["B", "A"]), &strings(&["2", "1"]));
    let r = Package::from_fields(&strings(&["A", "B"]), &strings(&["1", "3"]));
    assert_eq!(p, q);
    assert_ne!(p, r);
}
