//! Which functions of a type stand for its conventional operations.

use crate::analysis::functions::{views, Info, InfoView, ReturnValue, Visibility};
use crate::analysis::imports::{ImportView, Imports};
use crate::analysis::special_tables::{FunctionInfos, TraitInfos};
use crate::config::gobjects::GObject;
use crate::library;
use crate::library::{Transfer, TypeId};
use crate::text::str_eq;
use crate::version::Version;
use vstd::prelude::*;
use vstd::string::*;

verus! {

/// A conventional operation that a function of a type can stand for.
#[derive(Clone, Copy, Debug, PartialEq, Eq, Structural, PartialOrd, Ord, Hash)]
pub enum Type {
    /// Ordering of two values.
    Compare,
    /// Cloning of a value.
    Copy,
    /// Equality of two values.
    Equal,
    /// Destruction of a value.
    Free,
    /// One more reference to a value.
    Ref,
    /// Formatting of a value for a reader.
    Display,
    /// One reference fewer to a value.
    Unref,
    /// Hashing of a value.
    Hash,
}

impl Type {
    /// The place of the operation in the order of operations.
    pub open spec fn rank(self) -> int {
        match self {
            Type::Compare => 0,
            Type::Copy => 1,
            Type::Equal => 2,
            Type::Free => 3,
            Type::Ref => 4,
            Type::Display => 5,
            Type::Unref => 6,
            Type::Hash => 7,
        }
    }
}

/// The function that stands for an operation.
#[derive(Debug, Clone)]
pub struct TraitInfo {
    /// The name of the function in the library.
    pub glib_name: String,
    /// The first version of the library that has the function.
    pub version: Option<Version>,
}

/// A [`TraitInfo`] as a mathematical value.
pub struct TraitInfoView {
    pub glib_name: Seq<char>,
    pub version: Option<Version>,
}

impl View for TraitInfo {
    type V = TraitInfoView;

    open spec fn view(&self) -> TraitInfoView {
        TraitInfoView { glib_name: self.glib_name@, version: self.version }
    }
}

/// What is special about a function beyond the operation it stands for.
#[derive(Clone, Copy, Debug, PartialEq, Eq, Structural, PartialOrd, Ord, Hash)]
pub enum FunctionType {
    /// The function formats a value as a string that it keeps owning and that
    /// lives as long as the program.
    StaticStringify,
}

/// What is special about one function.
#[derive(Clone, Copy, Debug, PartialEq, Eq, Structural)]
pub struct FunctionInfo {
    pub type_: FunctionType,
    /// The first version of the library that has the function.
    pub version: Option<Version>,
}

/// The operation that a function of the given name stands for, if any. The
/// names are matched letter for letter.
pub open spec fn type_of_name(name: Seq<char>) -> Option<Type> {
    if name == "compare"@ {
        Some(Type::Compare)
    } else if name == "copy"@ {
        Some(Type::Copy)
    } else if name == "equal"@ || name == "is_equal"@ {
        Some(Type::Equal)
    } else if name == "free"@ || name == "destroy"@ {
        Some(Type::Free)
    } else if name == "ref"@ || name == "ref_"@ {
        Some(Type::Ref)
    } else if name == "unref"@ {
        Some(Type::Unref)
    } else if name == "hash"@ {
        Some(Type::Hash)
    } else {
        None
    }
}

/// What is said of a name that stands for no operation.
pub open spec fn unknown_type(name: Seq<char>) -> Seq<char> {
    "Unknown type '"@ + name + "'"@
}

/// Who may see the function that stands for the given operation.
pub open spec fn visibility_of(t: Type) -> Visibility {
    match t {
        Type::Copy | Type::Free | Type::Ref | Type::Unref => Visibility::Hidden,
        Type::Hash | Type::Compare | Type::Equal => Visibility::Private,
        Type::Display => Visibility::Public,
    }
}

impl Type {
    /// The operation that a function of the given name stands for, if any.
    pub fn from_name(name: &str) -> (found: Option<Type>)
        ensures
            found == type_of_name(name@),
    {
        if str_eq(name, "compare") {
            Some(Type::Compare)
        } else if str_eq(name, "copy") {
            Some(Type::Copy)
        } else if str_eq(name, "equal") || str_eq(name, "is_equal") {
            Some(Type::Equal)
        } else if str_eq(name, "free") || str_eq(name, "destroy") {
            Some(Type::Free)
        } else if str_eq(name, "ref") || str_eq(name, "ref_") {
            Some(Type::Ref)
        } else if str_eq(name, "unref") {
            Some(Type::Unref)
        } else if str_eq(name, "hash") {
            Some(Type::Hash)
        } else {
            None
        }
    }

    /// The operation that a function of the given name stands for, or what
    /// is wrong with the name.
    pub fn parse(name: &str) -> (found: Result<Type, String>)
        ensures
            match found {
                Ok(t) => type_of_name(name@) == Some(t),
                Err(e) => type_of_name(name@) is None && e@ == unknown_type(name@),
            },
    {
        match Type::from_name(name) {
            Some(t) => Ok(t),
            None => {
                let mut e = "Unknown type '".to_owned();
                e.append(name);
                e.append("'");
                Err(e)
            },
        }
    }
}

impl std::str::FromStr for Type {
    type Err = String;

    /// The operation that a function of the given name stands for, or what
    /// is wrong with the name: the same as [`Type::parse`].
    fn from_str(s: &str) -> (found: Result<Type, String>)
        ensures
            match found {
                Ok(t) => type_of_name(s@) == Some(t),
                Err(e) => type_of_name(s@) is None && e@ == unknown_type(s@),
            },
    {
        Type::parse(s)
    }
}

/// Whether a function has the shape of one that formats a value: it takes the
/// instance and nothing else, and returns a string.
pub open spec fn has_stringify_shape(f: InfoView) -> bool {
    &&& f.parameters.len() == 1
    &&& f.parameters[0].instance_parameter
    &&& f.ret is Some
    &&& f.ret->0.typ.is_utf8()
}

/// The function as the formatting check leaves it. A function of the right
/// shape that is named `to_string` is renamed to `to_str`, so that it does not
/// clash with the standard conversion to an owned string; and what it returns
/// is taken as never absent, unless the annotations are trusted or the type is
/// an enumeration or a bitfield. Any other function is left as it is.
pub open spec fn stringify_rewrite(f: InfoView, parent: library::Type, trust: bool) -> InfoView {
    if has_stringify_shape(f) && f.name == "to_string"@ {
        let ret = f.ret->0;
        let nullable = if !trust && !parent.is_enum_like() {
            false
        } else {
            ret.nullable
        };
        InfoView { name: "to_str"@, ret: Some(ReturnValue { nullable, ..ret }), ..f }
    } else {
        f
    }
}

/// Whether the formatting check accepts a function: it has the right shape,
/// and what it returns is, after the rewrite, never absent.
pub open spec fn stringify_accepts(f: InfoView, parent: library::Type, trust: bool) -> bool {
    has_stringify_shape(f) && !stringify_rewrite(f, parent, trust).ret->0.nullable
}

/// Decides whether a function takes an instance as its single argument and
/// returns a string that is always there, and rewrites it on the way as
/// [`stringify_rewrite`] says. The rewrite stays whether or not the function is
/// accepted.
pub fn is_stringify(func: &mut Info, parent_type: &library::Type, obj: &GObject) -> (accepted:
    bool)
    ensures
        final(func)@ == stringify_rewrite(
            old(func)@,
            *parent_type,
            obj.trust_return_value_nullability,
        ),
        accepted == stringify_accepts(
            old(func)@,
            *parent_type,
            obj.trust_return_value_nullability,
        ),
{
    if func.parameters.len() != 1 {
        return false;
    }
    if !func.parameters[0].instance_parameter {
        return false;
    }
    match func.ret {
        Some(ret) => {
            if ret.typ != TypeId::tid_utf8() {
                return false;
            }
            let mut nullable = ret.nullable;
            if str_eq(func.name.as_str(), "to_string") {
                func.name = "to_str".to_owned();
                if !obj.trust_return_value_nullability && !parent_type.enum_like() {
                    nullable = false;
                }
                func.ret = Some(ReturnValue { typ: ret.typ, nullable, transfer: ret.transfer });
            }
            !nullable
        },
        None => false,
    }
}

/// Who may see the function that stands for the given operation.
pub fn visibility(t: Type) -> (v: Visibility)
    ensures
        v == visibility_of(t),
{
    match t {
        Type::Copy | Type::Free | Type::Ref | Type::Unref => Visibility::Hidden,
        Type::Hash | Type::Compare | Type::Equal => Visibility::Private,
        Type::Display => Visibility::Public,
    }
}

/// The registry of one type: the function that stands for each operation, and
/// what else is special about single functions.
#[derive(Debug)]
pub struct Infos {
    traits: TraitInfos,
    functions: FunctionInfos,
}

impl Infos {
    /// The table by operation, in contracts.
    pub closed spec fn spec_traits(&self) -> &TraitInfos {
        &self.traits
    }

    /// The table by function name, in contracts.
    pub closed spec fn spec_functions(&self) -> &FunctionInfos {
        &self.functions
    }

    /// The function that stands for each operation.
    #[verifier::when_used_as_spec(spec_traits)]
    pub fn traits(&self) -> (traits: &TraitInfos)
        ensures
            traits == self.traits(),
    {
        &self.traits
    }

    /// The table by operation, to be changed in place.
    pub fn traits_mut(&mut self) -> (traits: &mut TraitInfos)
        ensures
            *traits == *old(self).traits(),
            *final(self).traits() == *final(traits),
            final(self).functions() == old(self).functions(),
    {
        &mut self.traits
    }

    /// Whether a function stands for the operation.
    pub fn has_trait(&self, type_: Type) -> (found: bool)
        ensures
            found == self.traits()@.contains_key(type_),
    {
        self.traits.contains_key(&type_)
    }

    /// What is special about single functions, by function name.
    #[verifier::when_used_as_spec(spec_functions)]
    pub fn functions(&self) -> (functions: &FunctionInfos)
        ensures
            functions == self.functions(),
    {
        &self.functions
    }
}

impl Default for Infos {
    fn default() -> (infos: Infos)
        ensures
            infos.traits()@ == Map::<Type, TraitInfoView>::empty(),
            infos.functions()@ == Map::<Seq<char>, FunctionInfo>::empty(),
    {
        Infos { traits: TraitInfos::new(), functions: FunctionInfos::new() }
    }
}

/// The place of the last item of a sequence that passes a test, if any does.
pub open spec fn last_index<T>(items: Seq<T>, test: spec_fn(T) -> bool) -> Option<int>
    decreases items.len(),
{
    if items.len() == 0 {
        None
    } else if test(items.last()) {
        Some(items.len() - 1)
    } else {
        last_index(items.drop_last(), test)
    }
}

/// [`last_index`] gives the place of an item that passes the test and after
/// which none passes it; it gives none only where no item passes.
pub proof fn lemma_last_index<T>(items: Seq<T>, test: spec_fn(T) -> bool)
    ensures
        match last_index(items, test) {
            Some(i) => {
                &&& 0 <= i < items.len()
                &&& test(items[i])
                &&& forall|j: int| i < j < items.len() ==> !test(#[trigger] items[j])
            },
            None => forall|j: int| 0 <= j < items.len() ==> !test(#[trigger] items[j]),
        },
    decreases items.len(),
{
    if items.len() > 0 && !test(items.last()) {
        let front = items.drop_last();
        lemma_last_index(front, test);
        assert forall|j: int| 0 <= j < front.len() implies front[j] == items[j] by {}
        match last_index(front, test) {
            Some(i) => {
                assert forall|j: int| i < j < items.len() implies !test(#[trigger] items[j]) by {
                    if j < front.len() {
                        assert(front[j] == items[j]);
                    }
                }
            },
            None => {
                assert forall|j: int| 0 <= j < items.len() implies !test(#[trigger] items[j]) by {
                    if j < front.len() {
                        assert(front[j] == items[j]);
                    }
                }
            },
        }
    }
}

/// Whether a name is one under which a formatting function can serve as the
/// formatting of the type.
pub open spec fn is_display_name(name: Seq<char>) -> bool {
    name == "to_string"@ || name == "to_str"@ || name == "name"@ || name == "get_name"@
}

/// Whether a function, on its own, stands for an operation. A function that
/// the formatting check accepts stands for formatting where its name, after
/// the rewrite, is one of the formatting names, and for nothing else. Any
/// other function stands for the operation that its name gives, but for one
/// named `destroy`, which only ever stands in for a missing destruction.
pub open spec fn stands_for(f: InfoView, parent: library::Type, trust: bool, t: Type) -> bool {
    let g = stringify_rewrite(f, parent, trust);
    if stringify_accepts(f, parent, trust) {
        t == Type::Display && is_display_name(g.name)
    } else {
        type_of_name(g.name) == Some(t) && g.name != "destroy"@
    }
}

/// Whether a function can stand in for a missing destruction: it is named
/// `destroy`, and the formatting check does not accept it.
pub open spec fn is_spare_destroy(f: InfoView, parent: library::Type, trust: bool) -> bool {
    !stringify_accepts(f, parent, trust) && stringify_rewrite(f, parent, trust).name == "destroy"@
}

/// Whether a function hands out a string that it keeps owning and that lives
/// as long as the program: the formatting check accepts it, what it returns
/// stays with it, the type is an enumeration or a bitfield, and code is
/// generated for the function.
pub open spec fn is_static_stringify(f: InfoView, parent: library::Type, trust: bool) -> bool {
    &&& stringify_accepts(f, parent, trust)
    &&& f.ret->0.transfer is Nothing
    &&& parent.is_enum_like()
    &&& f.status.is_generate()
}

/// The test whether a function stands for a given operation.
pub open spec fn source_test(parent: library::Type, trust: bool, t: Type) -> spec_fn(
    InfoView,
) -> bool {
    |f: InfoView| stands_for(f, parent, trust, t)
}

/// The test whether a function can stand in for a missing destruction.
pub open spec fn spare_destroy_test(parent: library::Type, trust: bool) -> spec_fn(
    InfoView,
) -> bool {
    |f: InfoView| is_spare_destroy(f, parent, trust)
}

/// The test whether a function of a given library name hands out a static
/// string.
pub open spec fn static_stringify_test(
    parent: library::Type,
    trust: bool,
    glib_name: Seq<char>,
) -> spec_fn(InfoView) -> bool {
    |f: InfoView| is_static_stringify(f, parent, trust) && f.glib_name == glib_name
}

/// What the registry records of a function that stands for an operation.
pub open spec fn trait_info_of(f: InfoView) -> TraitInfoView {
    TraitInfoView { glib_name: f.glib_name, version: f.version }
}

/// The function that stands for an operation on its own: the last one in the
/// list that does.
pub open spec fn direct_source(
    funcs: Seq<InfoView>,
    parent: library::Type,
    trust: bool,
    t: Type,
) -> Option<int> {
    last_index(funcs, source_test(parent, trust, t))
}

/// The function named `destroy` that stands in for the destruction of the
/// type: there is one only where some function stands for cloning and none
/// for destruction, and it is then the last function that can stand in.
pub open spec fn promoted_destroy(funcs: Seq<InfoView>, parent: library::Type, trust: bool)
    -> Option<int> {
    if direct_source(funcs, parent, trust, Type::Copy) is Some && direct_source(
        funcs,
        parent,
        trust,
        Type::Free,
    ) is None {
        last_index(funcs, spare_destroy_test(parent, trust))
    } else {
        None
    }
}

/// The function of a list that the registry records for an operation.
pub open spec fn source_of(funcs: Seq<InfoView>, parent: library::Type, trust: bool, t: Type)
    -> Option<int> {
    if direct_source(funcs, parent, trust, t) is Some {
        direct_source(funcs, parent, trust, t)
    } else if t == Type::Free {
        promoted_destroy(funcs, parent, trust)
    } else {
        None
    }
}

/// The table by operation that a list of functions gives.
pub open spec fn traits_of(funcs: Seq<InfoView>, parent: library::Type, trust: bool) -> Map<
    Type,
    TraitInfoView,
> {
    Map::new(
        |t: Type| source_of(funcs, parent, trust, t) is Some,
        |t: Type| trait_info_of(funcs[source_of(funcs, parent, trust, t)->0]),
    )
}

/// The table by function name that a list of functions gives: each library
/// name of a function that hands out a static string, with the version of the
/// last function of that name that does.
pub open spec fn functions_of(funcs: Seq<InfoView>, parent: library::Type, trust: bool) -> Map<
    Seq<char>,
    FunctionInfo,
> {
    Map::new(
        |name: Seq<char>| last_index(funcs, static_stringify_test(parent, trust, name)) is Some,
        |name: Seq<char>|
            FunctionInfo {
                type_: FunctionType::StaticStringify,
                version: funcs[last_index(
                    funcs,
                    static_stringify_test(parent, trust, name),
                )->0].version,
            },
    )
}

/// A function with the visibility of the operation that it stands for; one
/// that is written out as a comment only keeps that.
pub open spec fn with_visibility_of(f: InfoView, t: Type) -> InfoView {
    if f.visibility is Comment {
        f
    } else {
        InfoView { visibility: visibility_of(t), ..f }
    }
}

/// A function as the pass over the list leaves it, before a `destroy` is
/// promoted: rewritten by the formatting check and, where it stands for an
/// operation other than formatting, with the visibility of that operation.
pub open spec fn function_after_pass(f: InfoView, parent: library::Type, trust: bool)
    -> InfoView {
    let g = stringify_rewrite(f, parent, trust);
    if stringify_accepts(f, parent, trust) {
        g
    } else {
        match type_of_name(g.name) {
            Some(t) => if g.name == "destroy"@ {
                g
            } else {
                with_visibility_of(g, t)
            },
            None => g,
        }
    }
}

/// The function at a place of the list as the classification leaves it.
pub open spec fn function_after(funcs: Seq<InfoView>, parent: library::Type, trust: bool, i: int)
    -> InfoView {
    let g = function_after_pass(funcs[i], parent, trust);
    if promoted_destroy(funcs, parent, trust) == Some(i) {
        with_visibility_of(g, Type::Free)
    } else {
        g
    }
}

/// Gives a function the visibility of the operation that it stands for,
/// unless the function is written out as a comment only.
pub fn update_func(func: &mut Info, type_: Type) -> (done: bool)
    ensures
        done,
        final(func)@ == with_visibility_of(old(func)@, type_),
{
    if func.visibility != Visibility::Comment {
        func.visibility = visibility(type_);
    }
    true
}

/// The table by operation without a promoted `destroy`: for each operation,
/// the last function that stands for it on its own.
pub open spec fn direct_traits_of(funcs: Seq<InfoView>, parent: library::Type, trust: bool)
    -> Map<Type, TraitInfoView> {
    Map::new(
        |t: Type| direct_source(funcs, parent, trust, t) is Some,
        |t: Type| trait_info_of(funcs[direct_source(funcs, parent, trust, t)->0]),
    )
}

/// The last item among the first `n + 1` that passes a test is the item at
/// `n` where that one passes, and else the last among the first `n`.
pub proof fn lemma_last_index_step<T>(items: Seq<T>, n: int, test: spec_fn(T) -> bool)
    requires
        0 <= n < items.len(),
    ensures
        last_index(items.take(n + 1), test) == (if test(items[n]) {
            Some(n)
        } else {
            last_index(items.take(n), test)
        }),
{
    assert(items.take(n + 1).drop_last() =~= items.take(n));
    assert(items.take(n + 1).last() == items[n]);
}

/// An item that is the last of a prefix to pass a test stands at the same
/// place in the whole sequence.
pub proof fn lemma_last_index_of_prefix<T>(items: Seq<T>, n: int, test: spec_fn(T) -> bool)
    requires
        0 <= n <= items.len(),
    ensures
        last_index(items.take(n), test) matches Some(i) ==> 0 <= i < n && items.take(n)[i]
            == items[i] && test(items[i]),
{
    lemma_last_index(items.take(n), test);
}

/// One more function changes the table by operation in one entry at most:
/// that of the operation that the function stands for.
pub proof fn lemma_direct_traits_step(
    funcs: Seq<InfoView>,
    n: int,
    parent: library::Type,
    trust: bool,
)
    requires
        0 <= n < funcs.len(),
    ensures
        forall|t: Type| #[trigger]
            stands_for(funcs[n], parent, trust, t) ==> direct_traits_of(
                funcs.take(n + 1),
                parent,
                trust,
            ) == direct_traits_of(funcs.take(n), parent, trust).insert(
                t,
                trait_info_of(funcs[n]),
            ),
        (forall|t: Type| !stands_for(funcs[n], parent, trust, t)) ==> direct_traits_of(
            funcs.take(n + 1),
            parent,
            trust,
        ) == direct_traits_of(funcs.take(n), parent, trust),
{
    let before = funcs.take(n);
    let after = funcs.take(n + 1);
    assert forall|t: Type|
        direct_source(after, parent, trust, t) == (if stands_for(funcs[n], parent, trust, t) {
            Some(n)
        } else {
            direct_source(before, parent, trust, t)
        }) by {
        lemma_last_index_step(funcs, n, source_test(parent, trust, t));
    }
    assert forall|t: Type|
        direct_source(before, parent, trust, t) is Some implies before[direct_source(
        before,
        parent,
        trust,
        t,
    )->0] == after[direct_source(before, parent, trust, t)->0] by {
        lemma_last_index_of_prefix(funcs, n, source_test(parent, trust, t));
    }
    assert forall|t: Type| #[trigger]
        stands_for(funcs[n], parent, trust, t) implies direct_traits_of(after, parent, trust)
        == direct_traits_of(before, parent, trust).insert(t, trait_info_of(funcs[n])) by {
        assert(direct_traits_of(after, parent, trust) =~= direct_traits_of(
            before,
            parent,
            trust,
        ).insert(t, trait_info_of(funcs[n])));
    }
    if forall|t: Type| !stands_for(funcs[n], parent, trust, t) {
        assert(direct_traits_of(after, parent, trust) =~= direct_traits_of(before, parent, trust));
    }
}

/// One more function changes the table by function name in one entry at
/// most: that of the function's library name, where the function hands out a
/// static string.
pub proof fn lemma_functions_step(funcs: Seq<InfoView>, n: int, parent: library::Type, trust: bool)
    requires
        0 <= n < funcs.len(),
    ensures
        functions_of(funcs.take(n + 1), parent, trust) == (if is_static_stringify(
            funcs[n],
            parent,
            trust,
        ) {
            functions_of(funcs.take(n), parent, trust).insert(
                funcs[n].glib_name,
                FunctionInfo { type_: FunctionType::StaticStringify, version: funcs[n].version },
            )
        } else {
            functions_of(funcs.take(n), parent, trust)
        }),
{
    let before = funcs.take(n);
    let after = funcs.take(n + 1);
    assert forall|name: Seq<char>|
        last_index(after, static_stringify_test(parent, trust, name)) == (if is_static_stringify(
            funcs[n],
            parent,
            trust,
        ) && funcs[n].glib_name == name {
            Some(n)
        } else {
            last_index(before, static_stringify_test(parent, trust, name))
        }) by {
        lemma_last_index_step(funcs, n, static_stringify_test(parent, trust, name));
    }
    assert forall|name: Seq<char>|
        last_index(before, static_stringify_test(parent, trust, name))
            is Some implies before[last_index(
        before,
        static_stringify_test(parent, trust, name),
    )->0] == after[last_index(before, static_stringify_test(parent, trust, name))->0] by {
        lemma_last_index_of_prefix(funcs, n, static_stringify_test(parent, trust, name));
    }
    if is_static_stringify(funcs[n], parent, trust) {
        assert(functions_of(after, parent, trust) =~= functions_of(before, parent, trust).insert(
            funcs[n].glib_name,
            FunctionInfo { type_: FunctionType::StaticStringify, version: funcs[n].version },
        ));
    } else {
        assert(functions_of(after, parent, trust) =~= functions_of(before, parent, trust));
    }
}

/// Whether a name is one under which a formatting function can serve as the
/// formatting of the type.
pub fn display_name(name: &str) -> (yes: bool)
    ensures
        yes == is_display_name(name@),
{
    str_eq(name, "to_string") || str_eq(name, "to_str") || str_eq(name, "name") || str_eq(
        name,
        "get_name",
    )
}

/// Finds the functions of a type that stand for its conventional operations.
///
/// The functions are taken in their order. Each is first put to the
/// formatting check, which may rename it and settle whether what it returns
/// can be absent. One that the check accepts is recorded by its library name
/// where it hands out a static string, and stands for formatting where its
/// name is a formatting name. Any other function stands for the operation
/// that its name gives, takes the visibility of that operation, and is
/// recorded for it; a later function for the same operation takes the place
/// of an earlier one. A function named `destroy` is set aside: the last such
/// function stands for destruction only where a function stands for cloning
/// and none for destruction.
pub fn extract(functions: &mut Vec<Info>, parent_type: &library::Type, obj: &GObject) -> (specials:
    Infos)
    ensures
        final(functions)@.len() == old(functions)@.len(),
        forall|i: int|
            0 <= i < old(functions)@.len() ==> (#[trigger] final(functions)@[i])@
                == function_after(
                views(old(functions)@),
                *parent_type,
                obj.trust_return_value_nullability,
                i,
            ),
        specials.traits()@ == traits_of(
            views(old(functions)@),
            *parent_type,
            obj.trust_return_value_nullability,
        ),
        specials.functions()@ == functions_of(
            views(old(functions)@),
            *parent_type,
            obj.trust_return_value_nullability,
        ),
{
    let ghost funcs = views(functions@);
    let ghost parent = *parent_type;
    let ghost trust = obj.trust_return_value_nullability;
    let mut traits = TraitInfos::new();
    let mut infos = FunctionInfos::new();
    let mut has_copy = false;
    let mut has_free = false;
    let mut destroy: Option<(String, usize)> = None;
    let mut pos: usize = 0;
    proof {
        assert(direct_traits_of(funcs.take(0), parent, trust) =~= Map::<
            Type,
            TraitInfoView,
        >::empty());
        assert(functions_of(funcs.take(0), parent, trust) =~= Map::<
            Seq<char>,
            FunctionInfo,
        >::empty());
    }
    while pos < functions.len()
        invariant
            pos <= functions@.len(),
            functions@.len() == funcs.len(),
            parent == *parent_type,
            trust == obj.trust_return_value_nullability,
            forall|i: int|
                0 <= i < pos ==> (#[trigger] functions@[i])@ == function_after_pass(
                    funcs[i],
                    parent,
                    trust,
                ),
            forall|i: int| pos <= i < funcs.len() ==> (#[trigger] functions@[i])@ == funcs[i],
            traits@ == direct_traits_of(funcs.take(pos as int), parent, trust),
            infos@ == functions_of(funcs.take(pos as int), parent, trust),
            has_copy == (direct_source(funcs.take(pos as int), parent, trust, Type::Copy) is Some),
            has_free == (direct_source(funcs.take(pos as int), parent, trust, Type::Free) is Some),
            match destroy {
                Some(d) => {
                    &&& last_index(funcs.take(pos as int), spare_destroy_test(parent, trust))
                        == Some(d.1 as int)
                    &&& d.1 < pos
                    &&& d.0@ == funcs[d.1 as int].glib_name
                },
                None => last_index(funcs.take(pos as int), spare_destroy_test(parent, trust))
                    is None,
            },
        decreases functions@.len() - pos,
    {
        let ghost f = funcs[pos as int];
        let ghost before = funcs.take(pos as int);
        let ghost after = funcs.take(pos + 1);
        proof {
            lemma_direct_traits_step(funcs, pos as int, parent, trust);
            lemma_functions_step(funcs, pos as int, parent, trust);
            lemma_last_index_step(funcs, pos as int, source_test(parent, trust, Type::Copy));
            lemma_last_index_step(funcs, pos as int, source_test(parent, trust, Type::Free));
            lemma_last_index_step(funcs, pos as int, spare_destroy_test(parent, trust));
        }
        let func = &mut functions[pos];
        if is_stringify(func, parent_type, obj) {
            let return_transfer_none = match func.ret {
                Some(ret) => ret.transfer == Transfer::Nothing,
                None => false,
            };
            let returns_static_ref = return_transfer_none && parent_type.enum_like()
                && func.status.need_generate();
            if returns_static_ref {
                infos.insert(
                    func.glib_name.clone(),
                    FunctionInfo { type_: FunctionType::StaticStringify, version: func.version },
                );
            }
            if display_name(func.name.as_str()) {
                traits.insert(
                    Type::Display,
                    TraitInfo { glib_name: func.glib_name.clone(), version: func.version },
                );
            }
        } else {
            match Type::from_name(func.name.as_str()) {
                Some(type_) => {
                    if str_eq(func.name.as_str(), "destroy") {
                        destroy = Some((func.glib_name.clone(), pos));
                    } else {
                        update_func(func, type_);
                        match type_ {
                            Type::Copy => {
                                has_copy = true;
                            },
                            Type::Free => {
                                has_free = true;
                            },
                            _ => {},
                        }
                        traits.insert(
                            type_,
                            TraitInfo { glib_name: func.glib_name.clone(), version: func.version },
                        );
                    }
                },
                None => {},
            }
        }
        pos += 1;
    }
    proof {
        assert(funcs.take(pos as int) =~= funcs);
    }
    if has_copy && !has_free {
        match destroy {
            Some((glib_name, at)) => {
                let func = &mut functions[at];
                update_func(func, Type::Free);
                traits.insert(Type::Free, TraitInfo { glib_name, version: func.version });
            },
            None => {},
        }
    }
    proof {
        assert(traits@ =~= traits_of(funcs, parent, trust));
    }
    Infos { traits, functions: infos }
}

/// Whether the function at a place is the one that [`unhide`] makes public for
/// an operation: the registry names a function for the operation, and this is
/// the first function of that library name that is not written out as a
/// comment only.
pub open spec fn is_unhidden(
    funcs: Seq<InfoView>,
    traits: Map<Type, TraitInfoView>,
    t: Type,
    i: int,
) -> bool {
    &&& traits.contains_key(t)
    &&& 0 <= i < funcs.len()
    &&& is_unhide_match(funcs[i], traits[t].glib_name)
    &&& forall|j: int| 0 <= j < i ==> !is_unhide_match(#[trigger] funcs[j], traits[t].glib_name)
}

/// Whether a function has the given library name and is not written out as a
/// comment only.
pub open spec fn is_unhide_match(f: InfoView, glib_name: Seq<char>) -> bool {
    f.glib_name == glib_name && !(f.visibility is Comment)
}

/// Makes public the function that stands for an operation, so that it can be
/// called directly as well. Nothing changes where no function stands for the
/// operation, or where every function of that name is written out as a comment
/// only.
pub fn unhide(functions: &mut Vec<Info>, specials: &Infos, type_: Type)
    ensures
        final(functions)@.len() == old(functions)@.len(),
        forall|i: int|
            0 <= i < old(functions)@.len() ==> (#[trigger] final(functions)@[i])@ == (
            if is_unhidden(views(old(functions)@), specials.traits()@, type_, i) {
                InfoView { visibility: Visibility::Public, ..old(functions)@[i]@ }
            } else {
                old(functions)@[i]@
            }),
{
    let ghost funcs = views(functions@);
    match specials.traits().get(&type_) {
        Some(info) => {
            let mut i: usize = 0;
            while i < functions.len()
                invariant
                    i <= functions@.len(),
                    functions@ == old(functions)@,
                    funcs == views(functions@),
                    specials.traits()@.contains_key(type_),
                    info@ == specials.traits()@[type_],
                    forall|j: int|
                        0 <= j < i ==> !is_unhide_match(#[trigger] funcs[j], info@.glib_name),
                decreases functions@.len() - i,
            {
                if functions[i].glib_name == info.glib_name && functions[i].visibility
                    != Visibility::Comment {
                    functions[i].visibility = Visibility::Public;
                    proof {
                        assert(is_unhidden(funcs, specials.traits()@, type_, i as int));
                        assert forall|k: int| 0 <= k < funcs.len() && k != i implies !is_unhidden(
                            funcs,
                            specials.traits()@,
                            type_,
                            k,
                        ) by {
                            if k > i {
                                assert(is_unhide_match(funcs[i as int], info@.glib_name));
                            }
                        }
                    }
                    return ;
                }
                i += 1;
            }
        },
        None => {},
    }
}

/// The declaration that an operation asks for, where a function stands for
/// the operation: needed from that function's version on.
pub open spec fn import_for(traits: Map<Type, TraitInfoView>, t: Type, name: Seq<char>) -> Seq<
    ImportView,
> {
    if traits.contains_key(t) {
        seq![ImportView { name, version: traits[t].version }]
    } else {
        Seq::<ImportView>::empty()
    }
}

/// The declarations that the operations of a registry ask for, in the order
/// of the operations: ordering, formatting and hashing each ask for one, the
/// other operations for none.
pub open spec fn trait_imports(traits: Map<Type, TraitInfoView>) -> Seq<ImportView> {
    import_for(traits, Type::Compare, "std::cmp"@) + import_for(
        traits,
        Type::Display,
        "std::fmt"@,
    ) + import_for(traits, Type::Hash, "std::hash"@)
}

/// The declarations that the single functions of a registry ask for, in the
/// order of their names: each function that hands out a static string asks
/// for the type of such strings, from its version on.
pub open spec fn function_imports(pairs: Seq<(Seq<char>, FunctionInfo)>) -> Seq<ImportView> {
    pairs.map_values(
        |p: (Seq<char>, FunctionInfo)| ImportView { name: "std::ffi::CStr"@, version: p.1.version },
    )
}

/// Asks for the declarations that the generated operations of a registry
/// need, each from the version on at which its function appears.
pub fn analyze_imports(specials: &Infos, imports: &mut Imports)
    ensures
        final(imports)@ == old(imports)@ + trait_imports(specials.traits()@) + function_imports(
            specials.functions().pairs(),
        ),
{
    let ghost traits = specials.traits()@;
    let ghost start = imports@;
    match specials.traits().get(&Type::Compare) {
        Some(info) => imports.add_with_version("std::cmp", info.version),
        None => {},
    }
    assert(imports@ =~= start + import_for(traits, Type::Compare, "std::cmp"@));
    match specials.traits().get(&Type::Display) {
        Some(info) => imports.add_with_version("std::fmt", info.version),
        None => {},
    }
    match specials.traits().get(&Type::Hash) {
        Some(info) => imports.add_with_version("std::hash", info.version),
        None => {},
    }
    assert(imports@ =~= start + trait_imports(traits));
    let functions = specials.functions();
    let n = functions.len();
    let mut i: usize = 0;
    while i < n
        invariant
            i <= n,
            n == functions.pairs().len(),
            imports@ == start + trait_imports(traits) + function_imports(
                functions.pairs().take(i as int),
            ),
        decreases n - i,
    {
        let info = functions.value_at(i);
        match info.type_ {
            FunctionType::StaticStringify => imports.add_with_version("std::ffi::CStr", info.version),
        }
        assert(function_imports(functions.pairs().take(i + 1)) =~= function_imports(
            functions.pairs().take(i as int),
        ).push(ImportView { name: "std::ffi::CStr"@, version: info.version }));
        i += 1;
    }
    assert(functions.pairs().take(n as int) =~= functions.pairs());
}

} // verus!
