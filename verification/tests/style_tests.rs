use odt_to_md::errors::OdtError;
use odt_to_md::styles::{HashAdder, Style, StyleTable};

#[test]
fn builder_starts_empty() {
    let adder = HashAdder::default();
    assert!(adder.name.is_none());
    assert!(adder.style.is_none());
}

#[test]
fn double_name_is_violation() {
    let mut adder = HashAdder::default();
    assert!(adder.add_name("First".to_string()).is_ok());
    let r = adder.add_name("Second".to_string());
    assert!(matches!(r, Err(OdtError::StyleBuilderViolation)));
}

#[test]
fn double_style_is_violation() {
    let mut adder = HashAdder::default();
    assert!(adder.add_style(Style::Bold).is_ok());
    let r = adder.add_style(Style::Italics);
    assert!(matches!(r, Err(OdtError::StyleBuilderViolation)));
}

#[test]
fn commit_without_name_is_violation() {
    let mut adder = HashAdder::default();
    let mut table = StyleTable::new();
    let r = adder.add_to_hash(&mut table);
    assert!(matches!(r, Err(OdtError::StyleBuilderViolation)));
}

#[test]
fn commit_without_style_defaults_to_normal() {
    let mut adder = HashAdder::default();
    let mut table = StyleTable::new();
    adder.add_name("Plain1".to_string()).unwrap();
    adder.add_to_hash(&mut table).unwrap();
    let key = "Plain1".to_string();
    assert!(matches!(table.get(&key), Some(Style::Normal)));
}

#[test]
fn commit_records_style_and_resets() {
    let mut adder = HashAdder::default();
    let mut table = StyleTable::new();
    adder.add_name("Bold1".to_string()).unwrap();
    adder.add_style(Style::Bold).unwrap();
    adder.add_to_hash(&mut table).unwrap();
    assert!(adder.name.is_none());
    assert!(adder.style.is_none());
    let key = "Bold1".to_string();
    assert!(matches!(table.get(&key), Some(Style::Bold)));
    let missing = "Other".to_string();
    assert!(table.get(&missing).is_none());
}

#[test]
fn reset_clears_both_slots() {
    let mut adder = HashAdder::default();
    adder.add_name("N".to_string()).unwrap();
    adder.add_style(Style::Italics).unwrap();
    adder.reset();
    assert!(adder.name.is_none());
    assert!(adder.style.is_none());
}

#[test]
fn later_entry_with_same_name_wins() {
    let mut table = StyleTable::new();
    table.insert("S".to_string(), Style::Bold);
    table.insert("S".to_string(), Style::Italics);
    let key = "S".to_string();
    assert!(matches!(table.get(&key), Some(Style::Italics)));
}

#[test]
fn error_descriptions_name_the_failure() {
    let e = OdtError::StyleBuilderViolation;
    assert!(e.describe().contains("style definition"));
    let u = OdtError::UnmatchedCloseError;
    assert!(u.describe().contains("none was open"));
    let a = OdtError::ArchiveError("bad magic".to_string());
    assert!(a.describe().contains("bad magic"));
}
