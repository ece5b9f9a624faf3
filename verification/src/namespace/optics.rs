//! Lenses on the parts of a namespace: its name, vars, aliases, imports
//! and referred vars.
use vstd::prelude::*;
use crate::namespace::{Aliases, Imports, Namespace, NamespaceView, Refers, Vars};
use crate::optics::lens::{Lens, LensGet, LensMut, LensSet, LensSetMut};
use crate::symbol::SymbolUnqualified;

verus! {

/// The name of a namespace, as the lens on it reads it.
pub open spec fn view_name(v: NamespaceView) -> Seq<char> {
    v.0
}

/// A namespace with its name replaced, as the lens on it writes it.
pub open spec fn update_name(v: NamespaceView, a: Seq<char>) -> NamespaceView {
    (a, v.1, v.2, v.3, v.4)
}

/// A copy of the name of `ns`.
pub fn get_name(ns: &Namespace) -> (res: SymbolUnqualified)
    ensures
        res@ == view_name(ns.spec_view()),
{
    ns.name_symbol()
}

/// A namespace like `ns` with its name replaced by `name`.
pub fn set_name(ns: &Namespace, name: SymbolUnqualified) -> (res: Namespace)
    ensures
        res.spec_view() == update_name(ns.spec_view(), name@),
{
    Namespace::new(
        name,
        get_vars(ns),
        get_aliases(ns),
        get_imports(ns),
        get_refers(ns),
    )
}

/// Replaces the name of `ns` by `name`, in place.
pub fn set_name_mut(ns: &mut Namespace, name: SymbolUnqualified)
    ensures
        final(ns).spec_view() == update_name(old(ns).spec_view(), name@),
{
    ns.name = name;
}

/// The lens on the name of a namespace: it reads them by copying, and
/// sets them by making a new namespace or in place.
pub struct NameLens;

impl LensGet<Namespace, SymbolUnqualified> for NameLens {
    open spec fn get_requires(&self, s: &Namespace) -> bool {
        true
    }

    open spec fn get_ensures(&self, s: &Namespace, f: SymbolUnqualified) -> bool {
        f@ == view_name(s.spec_view())
    }

    fn get(&self, s: &Namespace) -> (res: SymbolUnqualified) {
        get_name(s)
    }
}

impl LensSet<Namespace, SymbolUnqualified> for NameLens {
    open spec fn set_requires(&self, s: &Namespace, a: &SymbolUnqualified) -> bool {
        true
    }

    open spec fn set_ensures(&self, s: &Namespace, a: &SymbolUnqualified, res: Namespace) -> bool {
        res.spec_view() == update_name(s.spec_view(), a@)
    }

    fn set(&self, s: &Namespace, a: SymbolUnqualified) -> (res: Namespace) {
        set_name(s, a)
    }
}

impl LensSetMut<Namespace, SymbolUnqualified> for NameLens {
    open spec fn set_mut_requires(&self, s: &Namespace, a: &SymbolUnqualified) -> bool {
        true
    }

    open spec fn set_mut_ensures(&self, old_s: &Namespace, a: &SymbolUnqualified, new_s: &Namespace) -> bool {
        new_s.spec_view() == update_name(old_s.spec_view(), a@)
    }

    fn set_mut(&self, s: &mut Namespace, a: SymbolUnqualified) {
        set_name_mut(s, a)
    }
}

impl Lens<Namespace, SymbolUnqualified> for NameLens {
}

impl LensMut<Namespace, SymbolUnqualified> for NameLens {
}

/// The lens on the name of a namespace that makes new namespaces.
pub fn lens_name() -> (res: NameLens)
    ensures
        forall|s: &Namespace| #[trigger] res.get_requires(s),
        forall|s: &Namespace, f: SymbolUnqualified| #[trigger] res.get_ensures(s, f) <==> f@ == view_name(s.spec_view()),
        forall|s: &Namespace, a: &SymbolUnqualified| #[trigger] res.set_requires(s, a),
        forall|s: &Namespace, a: &SymbolUnqualified, r: Namespace| #[trigger] res.set_ensures(s, a, r)
            <==> r.spec_view() == update_name(s.spec_view(), a@),
{
    NameLens
}

/// The lens on the name of a namespace that replaces in place.
pub fn lens_name_mut() -> (res: NameLens)
    ensures
        forall|s: &Namespace| #[trigger] res.get_requires(s),
        forall|s: &Namespace, f: SymbolUnqualified| #[trigger] res.get_ensures(s, f) <==> f@ == view_name(s.spec_view()),
        forall|s: &Namespace, a: &SymbolUnqualified| #[trigger] res.set_mut_requires(s, a),
        forall|s: &Namespace, a: &SymbolUnqualified, r: &Namespace| #[trigger] res.set_mut_ensures(s, a, r)
            <==> r.spec_view() == update_name(s.spec_view(), a@),
{
    NameLens
}

/// The lens laws for the name of a namespace: what is set is what is got,
/// setting what is got changes nothing, and a second set overrides the
/// first.
pub proof fn law_lens_name(v: NamespaceView, a: Seq<char>, b: Seq<char>)
    ensures
        view_name(update_name(v, a)) == a,
        update_name(v, view_name(v)) == v,
        update_name(update_name(v, a), b) == update_name(v, b),
{
}

/// The vars of a namespace, as the lens on it reads it.
pub open spec fn view_vars(v: NamespaceView) -> Map<Seq<char>, crate::var::PtrVar> {
    v.1
}

/// A namespace with its vars replaced, as the lens on it writes it.
pub open spec fn update_vars(v: NamespaceView, a: Map<Seq<char>, crate::var::PtrVar>) -> NamespaceView {
    (v.0, a, v.2, v.3, v.4)
}

/// A copy of the vars of `ns`.
pub fn get_vars(ns: &Namespace) -> (res: Vars)
    ensures
        res@ == view_vars(ns.spec_view()),
{
    ns.vars()
}

/// A namespace like `ns` with its vars replaced by `vars`.
pub fn set_vars(ns: &Namespace, vars: Vars) -> (res: Namespace)
    ensures
        res.spec_view() == update_vars(ns.spec_view(), vars@),
{
    Namespace::new(
        get_name(ns),
        vars,
        get_aliases(ns),
        get_imports(ns),
        get_refers(ns),
    )
}

/// Replaces the vars of `ns` by `vars`, in place.
pub fn set_vars_mut(ns: &mut Namespace, vars: Vars)
    ensures
        final(ns).spec_view() == update_vars(old(ns).spec_view(), vars@),
{
    ns.vars = vars;
}

/// The lens on the vars of a namespace: it reads them by copying, and
/// sets them by making a new namespace or in place.
pub struct VarsLens;

impl LensGet<Namespace, Vars> for VarsLens {
    open spec fn get_requires(&self, s: &Namespace) -> bool {
        true
    }

    open spec fn get_ensures(&self, s: &Namespace, f: Vars) -> bool {
        f@ == view_vars(s.spec_view())
    }

    fn get(&self, s: &Namespace) -> (res: Vars) {
        get_vars(s)
    }
}

impl LensSet<Namespace, Vars> for VarsLens {
    open spec fn set_requires(&self, s: &Namespace, a: &Vars) -> bool {
        true
    }

    open spec fn set_ensures(&self, s: &Namespace, a: &Vars, res: Namespace) -> bool {
        res.spec_view() == update_vars(s.spec_view(), a@)
    }

    fn set(&self, s: &Namespace, a: Vars) -> (res: Namespace) {
        set_vars(s, a)
    }
}

impl LensSetMut<Namespace, Vars> for VarsLens {
    open spec fn set_mut_requires(&self, s: &Namespace, a: &Vars) -> bool {
        true
    }

    open spec fn set_mut_ensures(&self, old_s: &Namespace, a: &Vars, new_s: &Namespace) -> bool {
        new_s.spec_view() == update_vars(old_s.spec_view(), a@)
    }

    fn set_mut(&self, s: &mut Namespace, a: Vars) {
        set_vars_mut(s, a)
    }
}

impl Lens<Namespace, Vars> for VarsLens {
}

impl LensMut<Namespace, Vars> for VarsLens {
}

/// The lens on the vars of a namespace that makes new namespaces.
pub fn lens_vars() -> (res: VarsLens)
    ensures
        forall|s: &Namespace| #[trigger] res.get_requires(s),
        forall|s: &Namespace, f: Vars| #[trigger] res.get_ensures(s, f) <==> f@ == view_vars(s.spec_view()),
        forall|s: &Namespace, a: &Vars| #[trigger] res.set_requires(s, a),
        forall|s: &Namespace, a: &Vars, r: Namespace| #[trigger] res.set_ensures(s, a, r)
            <==> r.spec_view() == update_vars(s.spec_view(), a@),
{
    VarsLens
}

/// The lens on the vars of a namespace that replaces in place.
pub fn lens_vars_mut() -> (res: VarsLens)
    ensures
        forall|s: &Namespace| #[trigger] res.get_requires(s),
        forall|s: &Namespace, f: Vars| #[trigger] res.get_ensures(s, f) <==> f@ == view_vars(s.spec_view()),
        forall|s: &Namespace, a: &Vars| #[trigger] res.set_mut_requires(s, a),
        forall|s: &Namespace, a: &Vars, r: &Namespace| #[trigger] res.set_mut_ensures(s, a, r)
            <==> r.spec_view() == update_vars(s.spec_view(), a@),
{
    VarsLens
}

/// The lens laws for the vars of a namespace: what is set is what is got,
/// setting what is got changes nothing, and a second set overrides the
/// first.
pub proof fn law_lens_vars(v: NamespaceView, a: Map<Seq<char>, crate::var::PtrVar>, b: Map<Seq<char>, crate::var::PtrVar>)
    ensures
        view_vars(update_vars(v, a)) == a,
        update_vars(v, view_vars(v)) == v,
        update_vars(update_vars(v, a), b) == update_vars(v, b),
{
}

/// The aliases of a namespace, as the lens on it reads it.
pub open spec fn view_aliases(v: NamespaceView) -> Map<Seq<char>, SymbolUnqualified> {
    v.2
}

/// A namespace with its aliases replaced, as the lens on it writes it.
pub open spec fn update_aliases(v: NamespaceView, a: Map<Seq<char>, SymbolUnqualified>) -> NamespaceView {
    (v.0, v.1, a, v.3, v.4)
}

/// A copy of the aliases of `ns`.
pub fn get_aliases(ns: &Namespace) -> (res: Aliases)
    ensures
        res@ == view_aliases(ns.spec_view()),
{
    ns.aliases()
}

/// A namespace like `ns` with its aliases replaced by `aliases`.
pub fn set_aliases(ns: &Namespace, aliases: Aliases) -> (res: Namespace)
    ensures
        res.spec_view() == update_aliases(ns.spec_view(), aliases@),
{
    Namespace::new(
        get_name(ns),
        get_vars(ns),
        aliases,
        get_imports(ns),
        get_refers(ns),
    )
}

/// Replaces the aliases of `ns` by `aliases`, in place.
pub fn set_aliases_mut(ns: &mut Namespace, aliases: Aliases)
    ensures
        final(ns).spec_view() == update_aliases(old(ns).spec_view(), aliases@),
{
    ns.aliases = aliases;
}

/// The lens on the aliases of a namespace: it reads them by copying, and
/// sets them by making a new namespace or in place.
pub struct AliasesLens;

impl LensGet<Namespace, Aliases> for AliasesLens {
    open spec fn get_requires(&self, s: &Namespace) -> bool {
        true
    }

    open spec fn get_ensures(&self, s: &Namespace, f: Aliases) -> bool {
        f@ == view_aliases(s.spec_view())
    }

    fn get(&self, s: &Namespace) -> (res: Aliases) {
        get_aliases(s)
    }
}

impl LensSet<Namespace, Aliases> for AliasesLens {
    open spec fn set_requires(&self, s: &Namespace, a: &Aliases) -> bool {
        true
    }

    open spec fn set_ensures(&self, s: &Namespace, a: &Aliases, res: Namespace) -> bool {
        res.spec_view() == update_aliases(s.spec_view(), a@)
    }

    fn set(&self, s: &Namespace, a: Aliases) -> (res: Namespace) {
        set_aliases(s, a)
    }
}

impl LensSetMut<Namespace, Aliases> for AliasesLens {
    open spec fn set_mut_requires(&self, s: &Namespace, a: &Aliases) -> bool {
        true
    }

    open spec fn set_mut_ensures(&self, old_s: &Namespace, a: &Aliases, new_s: &Namespace) -> bool {
        new_s.spec_view() == update_aliases(old_s.spec_view(), a@)
    }

    fn set_mut(&self, s: &mut Namespace, a: Aliases) {
        set_aliases_mut(s, a)
    }
}

impl Lens<Namespace, Aliases> for AliasesLens {
}

impl LensMut<Namespace, Aliases> for AliasesLens {
}

/// The lens on the aliases of a namespace that makes new namespaces.
pub fn lens_aliases() -> (res: AliasesLens)
    ensures
        forall|s: &Namespace| #[trigger] res.get_requires(s),
        forall|s: &Namespace, f: Aliases| #[trigger] res.get_ensures(s, f) <==> f@ == view_aliases(s.spec_view()),
        forall|s: &Namespace, a: &Aliases| #[trigger] res.set_requires(s, a),
        forall|s: &Namespace, a: &Aliases, r: Namespace| #[trigger] res.set_ensures(s, a, r)
            <==> r.spec_view() == update_aliases(s.spec_view(), a@),
{
    AliasesLens
}

/// The lens on the aliases of a namespace that replaces in place.
pub fn lens_aliases_mut() -> (res: AliasesLens)
    ensures
        forall|s: &Namespace| #[trigger] res.get_requires(s),
        forall|s: &Namespace, f: Aliases| #[trigger] res.get_ensures(s, f) <==> f@ == view_aliases(s.spec_view()),
        forall|s: &Namespace, a: &Aliases| #[trigger] res.set_mut_requires(s, a),
        forall|s: &Namespace, a: &Aliases, r: &Namespace| #[trigger] res.set_mut_ensures(s, a, r)
            <==> r.spec_view() == update_aliases(s.spec_view(), a@),
{
    AliasesLens
}

/// The lens laws for the aliases of a namespace: what is set is what is got,
/// setting what is got changes nothing, and a second set overrides the
/// first.
pub proof fn law_lens_aliases(v: NamespaceView, a: Map<Seq<char>, SymbolUnqualified>, b: Map<Seq<char>, SymbolUnqualified>)
    ensures
        view_aliases(update_aliases(v, a)) == a,
        update_aliases(v, view_aliases(v)) == v,
        update_aliases(update_aliases(v, a), b) == update_aliases(v, b),
{
}

/// The imports of a namespace, as the lens on it reads it.
pub open spec fn view_imports(v: NamespaceView) -> Map<Seq<char>, String> {
    v.3
}

/// A namespace with its imports replaced, as the lens on it writes it.
pub open spec fn update_imports(v: NamespaceView, a: Map<Seq<char>, String>) -> NamespaceView {
    (v.0, v.1, v.2, a, v.4)
}

/// A copy of the imports of `ns`.
pub fn get_imports(ns: &Namespace) -> (res: Imports)
    ensures
        res@ == view_imports(ns.spec_view()),
{
    ns.imports()
}

/// A namespace like `ns` with its imports replaced by `imports`.
pub fn set_imports(ns: &Namespace, imports: Imports) -> (res: Namespace)
    ensures
        res.spec_view() == update_imports(ns.spec_view(), imports@),
{
    Namespace::new(
        get_name(ns),
        get_vars(ns),
        get_aliases(ns),
        imports,
        get_refers(ns),
    )
}

/// Replaces the imports of `ns` by `imports`, in place.
pub fn set_imports_mut(ns: &mut Namespace, imports: Imports)
    ensures
        final(ns).spec_view() == update_imports(old(ns).spec_view(), imports@),
{
    ns.imports = imports;
}

/// The lens on the imports of a namespace: it reads them by copying, and
/// sets them by making a new namespace or in place.
pub struct ImportsLens;

impl LensGet<Namespace, Imports> for ImportsLens {
    open spec fn get_requires(&self, s: &Namespace) -> bool {
        true
    }

    open spec fn get_ensures(&self, s: &Namespace, f: Imports) -> bool {
        f@ == view_imports(s.spec_view())
    }

    fn get(&self, s: &Namespace) -> (res: Imports) {
        get_imports(s)
    }
}

impl LensSet<Namespace, Imports> for ImportsLens {
    open spec fn set_requires(&self, s: &Namespace, a: &Imports) -> bool {
        true
    }

    open spec fn set_ensures(&self, s: &Namespace, a: &Imports, res: Namespace) -> bool {
        res.spec_view() == update_imports(s.spec_view(), a@)
    }

    fn set(&self, s: &Namespace, a: Imports) -> (res: Namespace) {
        set_imports(s, a)
    }
}

impl LensSetMut<Namespace, Imports> for ImportsLens {
    open spec fn set_mut_requires(&self, s: &Namespace, a: &Imports) -> bool {
        true
    }

    open spec fn set_mut_ensures(&self, old_s: &Namespace, a: &Imports, new_s: &Namespace) -> bool {
        new_s.spec_view() == update_imports(old_s.spec_view(), a@)
    }

    fn set_mut(&self, s: &mut Namespace, a: Imports) {
        set_imports_mut(s, a)
    }
}

impl Lens<Namespace, Imports> for ImportsLens {
}

impl LensMut<Namespace, Imports> for ImportsLens {
}

/// The lens on the imports of a namespace that makes new namespaces.
pub fn lens_imports() -> (res: ImportsLens)
    ensures
        forall|s: &Namespace| #[trigger] res.get_requires(s),
        forall|s: &Namespace, f: Imports| #[trigger] res.get_ensures(s, f) <==> f@ == view_imports(s.spec_view()),
        forall|s: &Namespace, a: &Imports| #[trigger] res.set_requires(s, a),
        forall|s: &Namespace, a: &Imports, r: Namespace| #[trigger] res.set_ensures(s, a, r)
            <==> r.spec_view() == update_imports(s.spec_view(), a@),
{
    ImportsLens
}

/// The lens on the imports of a namespace that replaces in place.
pub fn lens_imports_mut() -> (res: ImportsLens)
    ensures
        forall|s: &Namespace| #[trigger] res.get_requires(s),
        forall|s: &Namespace, f: Imports| #[trigger] res.get_ensures(s, f) <==> f@ == view_imports(s.spec_view()),
        forall|s: &Namespace, a: &Imports| #[trigger] res.set_mut_requires(s, a),
        forall|s: &Namespace, a: &Imports, r: &Namespace| #[trigger] res.set_mut_ensures(s, a, r)
            <==> r.spec_view() == update_imports(s.spec_view(), a@),
{
    ImportsLens
}

/// The lens laws for the imports of a namespace: what is set is what is got,
/// setting what is got changes nothing, and a second set overrides the
/// first.
pub proof fn law_lens_imports(v: NamespaceView, a: Map<Seq<char>, String>, b: Map<Seq<char>, String>)
    ensures
        view_imports(update_imports(v, a)) == a,
        update_imports(v, view_imports(v)) == v,
        update_imports(update_imports(v, a), b) == update_imports(v, b),
{
}

/// The refers of a namespace, as the lens on it reads it.
pub open spec fn view_refers(v: NamespaceView) -> Map<Seq<char>, crate::var::PtrVar> {
    v.4
}

/// A namespace with its refers replaced, as the lens on it writes it.
pub open spec fn update_refers(v: NamespaceView, a: Map<Seq<char>, crate::var::PtrVar>) -> NamespaceView {
    (v.0, v.1, v.2, v.3, a)
}

/// A copy of the refers of `ns`.
pub fn get_refers(ns: &Namespace) -> (res: Refers)
    ensures
        res@ == view_refers(ns.spec_view()),
{
    ns.refers()
}

/// A namespace like `ns` with its refers replaced by `refers`.
pub fn set_refers(ns: &Namespace, refers: Refers) -> (res: Namespace)
    ensures
        res.spec_view() == update_refers(ns.spec_view(), refers@),
{
    Namespace::new(
        get_name(ns),
        get_vars(ns),
        get_aliases(ns),
        get_imports(ns),
        refers,
    )
}

/// Replaces the refers of `ns` by `refers`, in place.
pub fn set_refers_mut(ns: &mut Namespace, refers: Refers)
    ensures
        final(ns).spec_view() == update_refers(old(ns).spec_view(), refers@),
{
    ns.refers = refers;
}

/// The lens on the refers of a namespace: it reads them by copying, and
/// sets them by making a new namespace or in place.
pub struct RefersLens;

impl LensGet<Namespace, Refers> for RefersLens {
    open spec fn get_requires(&self, s: &Namespace) -> bool {
        true
    }

    open spec fn get_ensures(&self, s: &Namespace, f: Refers) -> bool {
        f@ == view_refers(s.spec_view())
    }

    fn get(&self, s: &Namespace) -> (res: Refers) {
        get_refers(s)
    }
}

impl LensSet<Namespace, Refers> for RefersLens {
    open spec fn set_requires(&self, s: &Namespace, a: &Refers) -> bool {
        true
    }

    open spec fn set_ensures(&self, s: &Namespace, a: &Refers, res: Namespace) -> bool {
        res.spec_view() == update_refers(s.spec_view(), a@)
    }

    fn set(&self, s: &Namespace, a: Refers) -> (res: Namespace) {
        set_refers(s, a)
    }
}

impl LensSetMut<Namespace, Refers> for RefersLens {
    open spec fn set_mut_requires(&self, s: &Namespace, a: &Refers) -> bool {
        true
    }

    open spec fn set_mut_ensures(&self, old_s: &Namespace, a: &Refers, new_s: &Namespace) -> bool {
        new_s.spec_view() == update_refers(old_s.spec_view(), a@)
    }

    fn set_mut(&self, s: &mut Namespace, a: Refers) {
        set_refers_mut(s, a)
    }
}

impl Lens<Namespace, Refers> for RefersLens {
}

impl LensMut<Namespace, Refers> for RefersLens {
}

/// The lens on the refers of a namespace that makes new namespaces.
pub fn lens_refers() -> (res: RefersLens)
    ensures
        forall|s: &Namespace| #[trigger] res.get_requires(s),
        forall|s: &Namespace, f: Refers| #[trigger] res.get_ensures(s, f) <==> f@ == view_refers(s.spec_view()),
        forall|s: &Namespace, a: &Refers| #[trigger] res.set_requires(s, a),
        forall|s: &Namespace, a: &Refers, r: Namespace| #[trigger] res.set_ensures(s, a, r)
            <==> r.spec_view() == update_refers(s.spec_view(), a@),
{
    RefersLens
}

/// The lens on the refers of a namespace that replaces in place.
pub fn lens_refers_mut() -> (res: RefersLens)
    ensures
        forall|s: &Namespace| #[trigger] res.get_requires(s),
        forall|s: &Namespace, f: Refers| #[trigger] res.get_ensures(s, f) <==> f@ == view_refers(s.spec_view()),
        forall|s: &Namespace, a: &Refers| #[trigger] res.set_mut_requires(s, a),
        forall|s: &Namespace, a: &Refers, r: &Namespace| #[trigger] res.set_mut_ensures(s, a, r)
            <==> r.spec_view() == update_refers(s.spec_view(), a@),
{
    RefersLens
}

/// The lens laws for the refers of a namespace: what is set is what is got,
/// setting what is got changes nothing, and a second set overrides the
/// first.
pub proof fn law_lens_refers(v: NamespaceView, a: Map<Seq<char>, crate::var::PtrVar>, b: Map<Seq<char>, crate::var::PtrVar>)
    ensures
        view_refers(update_refers(v, a)) == a,
        update_refers(v, view_refers(v)) == v,
        update_refers(update_refers(v, a), b) == update_refers(v, b),
{
}

} // verus!
