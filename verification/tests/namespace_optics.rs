use jinme::namespace::optics::{lens_name, lens_name_mut, lens_vars};
use jinme::namespace::Namespace;
use jinme::optics::lens::{LensGet, LensSet, LensSetMut};
use jinme::symbol::SymbolUnqualified;
use jinme::value::Value;

#[test]
fn name_lens_reads_back_what_it_sets() {
    let ns = Namespace::new_empty("a");
    let lens = lens_name();
    let renamed = lens.set(&ns, SymbolUnqualified::new("b"));
    assert_eq!(lens.get(&renamed).name(), "b");
    assert_eq!(lens.get(&ns).name(), "a");
    let same = lens.set(&ns, lens.get(&ns));
    assert_eq!(same.name_str(), ns.name_str());
    let twice = lens.set(&lens.set(&ns, SymbolUnqualified::new("b")), SymbolUnqualified::new("c"));
    assert_eq!(lens.get(&twice).name(), "c");
}

#[test]
fn name_lens_sets_in_place() {
    let mut ns = Namespace::new_empty("a");
    lens_name_mut().set_mut(&mut ns, SymbolUnqualified::new("c"));
    assert_eq!(ns.name_str(), "c");
}

#[test]
fn vars_lens_reads_the_vars() {
    let mut ns = Namespace::new_empty("a");
    ns.bind_value("x", Value::integer(1));
    let vars = lens_vars().get(&ns);
    assert_eq!(vars.len(), 1);
    assert!(vars.contains("x"));
    let emptied = lens_vars().set(&ns, Namespace::new_empty("b").vars());
    assert_eq!(lens_vars().get(&emptied).len(), 0);
    assert_eq!(emptied.name_str(), "a");
}
