//! What holds of every classification.

use crate::analysis::functions::{InfoView, Visibility};
use crate::analysis::imports::ImportView;
use crate::analysis::special_functions::{
    import_for, trait_imports, TraitInfoView,
    function_after, function_after_pass, functions_of, has_stringify_shape, is_spare_destroy,
    is_static_stringify, is_unhidden, is_unhide_match, last_index, lemma_last_index,
    promoted_destroy, source_of, source_test, spare_destroy_test, stands_for,
    static_stringify_test, stringify_accepts, stringify_rewrite, trait_info_of, traits_of,
    type_of_name, visibility_of, FunctionInfo, FunctionType, Type,
};
use crate::library;
use vstd::prelude::*;

verus! {

/// Where several functions stand for one operation, the registry records the
/// last of them: a function that stands for an operation, and after which no
/// function of the list does, is the one recorded for it, whatever came
/// before.
pub proof fn lemma_later_function_wins(
    funcs: Seq<InfoView>,
    parent: library::Type,
    trust: bool,
    t: Type,
    later: int,
)
    requires
        0 <= later < funcs.len(),
        stands_for(funcs[later], parent, trust, t),
        forall|k: int| later < k < funcs.len() ==> !stands_for(#[trigger] funcs[k], parent, trust, t),
    ensures
        traits_of(funcs, parent, trust).contains_key(t),
        traits_of(funcs, parent, trust)[t] == trait_info_of(funcs[later]),
{
    lemma_last_index(funcs, source_test(parent, trust, t));
}

/// Of two functions that stand for the same operation, the earlier one is
/// never the one recorded, unless both are recorded alike.
pub proof fn lemma_earlier_function_loses(
    funcs: Seq<InfoView>,
    parent: library::Type,
    trust: bool,
    t: Type,
    earlier: int,
    later: int,
)
    requires
        0 <= earlier < later < funcs.len(),
        stands_for(funcs[earlier], parent, trust, t),
        stands_for(funcs[later], parent, trust, t),
    ensures
        source_of(funcs, parent, trust, t) is Some,
        source_of(funcs, parent, trust, t)->0 >= later,
        stands_for(funcs[source_of(funcs, parent, trust, t)->0], parent, trust, t),
{
    lemma_last_index(funcs, source_test(parent, trust, t));
}

/// An operation is in the registry exactly where some function stands for
/// it or, for destruction, where a `destroy` is promoted.
pub proof fn lemma_recorded_operations(
    funcs: Seq<InfoView>,
    parent: library::Type,
    trust: bool,
    t: Type,
)
    ensures
        traits_of(funcs, parent, trust).contains_key(t) <==> {
            ||| exists|i: int| 0 <= i < funcs.len() && stands_for(#[trigger] funcs[i], parent, trust, t)
            ||| t == Type::Free && promoted_destroy(funcs, parent, trust) is Some
        },
{
    lemma_last_index(funcs, source_test(parent, trust, t));
}

/// A function named `destroy` is recorded for destruction only as a stand-in:
/// some function stands for cloning, and no function stands for destruction
/// on its own. It is then the last function that can stand in.
pub proof fn lemma_destroy_is_a_stand_in(
    funcs: Seq<InfoView>,
    parent: library::Type,
    trust: bool,
    i: int,
)
    requires
        source_of(funcs, parent, trust, Type::Free) == Some(i),
        0 <= i < funcs.len(),
        is_spare_destroy(funcs[i], parent, trust),
    ensures
        traits_of(funcs, parent, trust).contains_key(Type::Copy),
        forall|k: int|
            0 <= k < funcs.len() ==> !stands_for(#[trigger] funcs[k], parent, trust, Type::Free),
        forall|k: int| i < k < funcs.len() ==> !is_spare_destroy(#[trigger] funcs[k], parent, trust),
        function_after(funcs, parent, trust, i).visibility == (if funcs[i].visibility is Comment {
            Visibility::Comment
        } else {
            Visibility::Hidden
        }),
{
    lemma_last_index(funcs, source_test(parent, trust, Type::Free));
    lemma_last_index(funcs, source_test(parent, trust, Type::Copy));
    lemma_last_index(funcs, spare_destroy_test(parent, trust));
}

/// Where a function stands for destruction on its own, no `destroy` is
/// promoted: every function named `destroy` is left as the formatting check
/// leaves it, its visibility untouched.
pub proof fn lemma_no_stand_in_beside_a_destruction(
    funcs: Seq<InfoView>,
    parent: library::Type,
    trust: bool,
    free: int,
    i: int,
)
    requires
        0 <= free < funcs.len(),
        stands_for(funcs[free], parent, trust, Type::Free),
        0 <= i < funcs.len(),
        is_spare_destroy(funcs[i], parent, trust),
    ensures
        promoted_destroy(funcs, parent, trust) is None,
        source_of(funcs, parent, trust, Type::Free) != Some(i),
        function_after(funcs, parent, trust, i) == stringify_rewrite(funcs[i], parent, trust),
        function_after(funcs, parent, trust, i).visibility == funcs[i].visibility,
{
    lemma_last_index(funcs, source_test(parent, trust, Type::Free));
}

/// A function that is written out as a comment only keeps that visibility
/// through classification.
pub proof fn lemma_comment_stays_comment(
    funcs: Seq<InfoView>,
    parent: library::Type,
    trust: bool,
    i: int,
)
    requires
        0 <= i < funcs.len(),
        funcs[i].visibility is Comment,
    ensures
        function_after(funcs, parent, trust, i).visibility is Comment,
{
}

/// Classification changes of a function at most its name, whether what it
/// returns can be absent, and its visibility.
pub proof fn lemma_what_classification_changes(
    funcs: Seq<InfoView>,
    parent: library::Type,
    trust: bool,
    i: int,
)
    requires
        0 <= i < funcs.len(),
    ensures
        ({
            let f = funcs[i];
            let g = function_after(funcs, parent, trust, i);
            &&& g.glib_name == f.glib_name
            &&& g.status == f.status
            &&& g.parameters == f.parameters
            &&& g.version == f.version
            &&& g.ret is Some <==> f.ret is Some
            &&& g.ret is Some ==> g.ret->0.typ == f.ret->0.typ && g.ret->0.transfer
                == f.ret->0.transfer
            &&& g.name == stringify_rewrite(f, parent, trust).name
            &&& g.ret == stringify_rewrite(f, parent, trust).ret
        }),
{
}

/// A function whose name is no word of the vocabulary, and that the
/// formatting check does not accept, passes through classification as the
/// formatting check leaves it, and stands for nothing.
pub proof fn lemma_other_names_pass_through(
    funcs: Seq<InfoView>,
    parent: library::Type,
    trust: bool,
    i: int,
)
    requires
        0 <= i < funcs.len(),
        !stringify_accepts(funcs[i], parent, trust),
        type_of_name(stringify_rewrite(funcs[i], parent, trust).name) is None,
    ensures
        function_after(funcs, parent, trust, i) == stringify_rewrite(funcs[i], parent, trust),
        forall|t: Type| !stands_for(funcs[i], parent, trust, t),
        source_of(funcs, parent, trust, Type::Free) != Some(i),
{
    lemma_last_index(funcs, source_test(parent, trust, Type::Free));
    lemma_last_index(funcs, spare_destroy_test(parent, trust));
}

/// The function recorded for an operation has the visibility of that
/// operation after classification, unless it is written out as a comment only.
pub proof fn lemma_source_takes_visibility(
    funcs: Seq<InfoView>,
    parent: library::Type,
    trust: bool,
    t: Type,
    i: int,
)
    requires
        source_of(funcs, parent, trust, t) == Some(i),
        t != Type::Display,
        !(funcs[i].visibility is Comment),
    ensures
        0 <= i < funcs.len(),
        function_after(funcs, parent, trust, i).visibility == visibility_of(t),
{
    lemma_last_index(funcs, source_test(parent, trust, t));
    lemma_last_index(funcs, spare_destroy_test(parent, trust));
}

/// After classification, the promoter finds the function recorded for an
/// operation and makes it public: where that function is not written out as a
/// comment only and no earlier function has its library name, it is the one
/// that the promoter changes.
pub proof fn lemma_unhide_finds_source(
    funcs: Seq<InfoView>,
    parent: library::Type,
    trust: bool,
    t: Type,
    i: int,
)
    requires
        source_of(funcs, parent, trust, t) == Some(i),
        0 <= i < funcs.len(),
        !(funcs[i].visibility is Comment),
        forall|j: int| 0 <= j < i ==> (#[trigger] funcs[j]).glib_name != funcs[i].glib_name,
    ensures
        is_unhidden(
            Seq::new(funcs.len(), |k: int| function_after(funcs, parent, trust, k)),
            traits_of(funcs, parent, trust),
            t,
            i,
        ),
{
    let after = Seq::new(funcs.len(), |k: int| function_after(funcs, parent, trust, k));
    let name = traits_of(funcs, parent, trust)[t].glib_name;
    assert(name == funcs[i].glib_name);
    assert(is_unhide_match(after[i], name));
    assert forall|j: int| 0 <= j < i implies !is_unhide_match(#[trigger] after[j], name) by {
        assert(funcs[j].glib_name != funcs[i].glib_name);
        assert(after[j].glib_name == funcs[j].glib_name);
    }
}

/// The formatting check never leaves a function of formatting shape under
/// the name `to_string`: whoever reads the name afterwards reads the new one.
pub proof fn lemma_rename_comes_first(f: InfoView, parent: library::Type, trust: bool)
    requires
        has_stringify_shape(f),
    ensures
        stringify_rewrite(f, parent, trust).name != "to_string"@,
        f.name == "to_string"@ ==> stringify_rewrite(f, parent, trust).name == "to_str"@,
        f.name != "to_string"@ ==> stringify_rewrite(f, parent, trust) == f,
        function_after_pass(f, parent, trust).name == stringify_rewrite(f, parent, trust).name,
{
    reveal_strlit("to_string");
    reveal_strlit("to_str");
    assert("to_string"@.len() != "to_str"@.len());
}

/// The formatting check settles whether a function named `to_string` may
/// return nothing: outside enumerations and bitfields, and unless the
/// annotations are trusted, it may not, and the function is accepted; else the
/// annotation decides.
pub proof fn lemma_nullability_rule(f: InfoView, parent: library::Type, trust: bool)
    requires
        has_stringify_shape(f),
        f.name == "to_string"@,
    ensures
        !trust && !parent.is_enum_like() ==> stringify_accepts(f, parent, trust)
            && !stringify_rewrite(f, parent, trust).ret->0.nullable,
        trust || parent.is_enum_like() ==> stringify_accepts(f, parent, trust)
            == !f.ret->0.nullable && stringify_rewrite(f, parent, trust).ret == f.ret,
{
}

/// A library name is in the table by function name exactly where a function
/// of that name hands out a static string; the version recorded is that of
/// the last such function.
pub proof fn lemma_recorded_functions(
    funcs: Seq<InfoView>,
    parent: library::Type,
    trust: bool,
    name: Seq<char>,
)
    ensures
        functions_of(funcs, parent, trust).contains_key(name) <==> exists|i: int|
            0 <= i < funcs.len() && is_static_stringify(#[trigger] funcs[i], parent, trust)
                && funcs[i].glib_name == name,
        functions_of(funcs, parent, trust).contains_key(name) ==> exists|i: int|
            {
                &&& 0 <= i < funcs.len()
                &&& is_static_stringify(#[trigger] funcs[i], parent, trust)
                &&& funcs[i].glib_name == name
                &&& functions_of(funcs, parent, trust)[name] == FunctionInfo {
                    type_: FunctionType::StaticStringify,
                    version: funcs[i].version,
                }
                &&& forall|k: int|
                    i < k < funcs.len() ==> !(is_static_stringify(
                        #[trigger] funcs[k],
                        parent,
                        trust,
                    ) && funcs[k].glib_name == name)
            },
{
    lemma_last_index(funcs, static_stringify_test(parent, trust, name));
    if functions_of(funcs, parent, trust).contains_key(name) {
        let i = last_index(funcs, static_stringify_test(parent, trust, name))->0;
        assert(is_static_stringify(funcs[i], parent, trust) && funcs[i].glib_name == name);
    }
}

/// The vocabulary, word for word: each of its ten names stands for its
/// operation, and the name of formatting stands for none.
pub proof fn lemma_vocabulary()
    ensures
        type_of_name("compare"@) == Some(Type::Compare),
        type_of_name("copy"@) == Some(Type::Copy),
        type_of_name("equal"@) == Some(Type::Equal),
        type_of_name("is_equal"@) == Some(Type::Equal),
        type_of_name("free"@) == Some(Type::Free),
        type_of_name("destroy"@) == Some(Type::Free),
        type_of_name("ref"@) == Some(Type::Ref),
        type_of_name("ref_"@) == Some(Type::Ref),
        type_of_name("unref"@) == Some(Type::Unref),
        type_of_name("hash"@) == Some(Type::Hash),
        type_of_name("to_string"@) is None,
        type_of_name("to_str"@) is None,
        forall|name: Seq<char>| type_of_name(name) != Some(Type::Display),
{
    reveal_strlit("compare");
    reveal_strlit("copy");
    reveal_strlit("equal");
    reveal_strlit("is_equal");
    reveal_strlit("free");
    reveal_strlit("destroy");
    reveal_strlit("ref");
    reveal_strlit("ref_");
    reveal_strlit("unref");
    reveal_strlit("hash");
    reveal_strlit("to_string");
    reveal_strlit("to_str");
    assert("compare"@.len() == 7 && "compare"@[0] == 'c');
    assert("copy"@.len() == 4 && "copy"@[0] == 'c');
    assert("equal"@.len() == 5 && "equal"@[0] == 'e');
    assert("is_equal"@.len() == 8);
    assert("free"@.len() == 4 && "free"@[0] == 'f');
    assert("destroy"@.len() == 7 && "destroy"@[0] == 'd');
    assert("ref"@.len() == 3);
    assert("ref_"@.len() == 4 && "ref_"@[0] == 'r');
    assert("unref"@.len() == 5 && "unref"@[0] == 'u');
    assert("hash"@.len() == 4 && "hash"@[0] == 'h');
    assert("to_string"@.len() == 9);
    assert("to_str"@.len() == 6);
}

/// Where some function stands for cloning and none for destruction on its
/// own, the last function named `destroy` that the formatting check does not
/// accept stands in: the registry records it for destruction, and it is hidden
/// unless it is written out as a comment only.
pub proof fn lemma_stand_in_is_promoted(
    funcs: Seq<InfoView>,
    parent: library::Type,
    trust: bool,
    copy: int,
    destroy: int,
)
    requires
        0 <= copy < funcs.len(),
        stands_for(funcs[copy], parent, trust, Type::Copy),
        forall|k: int|
            0 <= k < funcs.len() ==> !stands_for(#[trigger] funcs[k], parent, trust, Type::Free),
        0 <= destroy < funcs.len(),
        is_spare_destroy(funcs[destroy], parent, trust),
        forall|k: int|
            destroy < k < funcs.len() ==> !is_spare_destroy(#[trigger] funcs[k], parent, trust),
    ensures
        traits_of(funcs, parent, trust).contains_key(Type::Copy),
        traits_of(funcs, parent, trust).contains_key(Type::Free),
        traits_of(funcs, parent, trust)[Type::Free] == trait_info_of(funcs[destroy]),
        function_after(funcs, parent, trust, destroy).visibility == (
        if funcs[destroy].visibility is Comment {
            Visibility::Comment
        } else {
            Visibility::Hidden
        }),
{
    lemma_last_index(funcs, source_test(parent, trust, Type::Free));
    lemma_last_index(funcs, source_test(parent, trust, Type::Copy));
    lemma_last_index(funcs, spare_destroy_test(parent, trust));
}

/// A function named `to_string` that has the shape of a formatting
/// function but may return nothing stands for no operation and hands out no
/// static string: it only keeps its new name.
pub proof fn lemma_rejected_to_string_counts_for_nothing(
    f: InfoView,
    parent: library::Type,
    trust: bool,
)
    requires
        has_stringify_shape(f),
        f.name == "to_string"@,
        !stringify_accepts(f, parent, trust),
    ensures
        forall|t: Type| !stands_for(f, parent, trust, t),
        !is_spare_destroy(f, parent, trust),
        !is_static_stringify(f, parent, trust),
        function_after_pass(f, parent, trust) == stringify_rewrite(f, parent, trust),
        function_after_pass(f, parent, trust).name == "to_str"@,
{
    lemma_vocabulary();
    reveal_strlit("to_str");
    reveal_strlit("destroy");
    assert("to_str"@.len() != "destroy"@.len());
}

/// A function named `to_string` that the formatting check accepts stands
/// for formatting, under its new name, and for nothing else.
pub proof fn lemma_accepted_to_string_stands_for_formatting(
    f: InfoView,
    parent: library::Type,
    trust: bool,
)
    requires
        has_stringify_shape(f),
        f.name == "to_string"@,
        stringify_accepts(f, parent, trust),
    ensures
        stands_for(f, parent, trust, Type::Display),
        forall|t: Type| t != Type::Display ==> !stands_for(f, parent, trust, t),
        function_after_pass(f, parent, trust).name == "to_str"@,
        function_after_pass(f, parent, trust).visibility == f.visibility,
        is_static_stringify(f, parent, trust) == (f.ret->0.transfer is Nothing
            && parent.is_enum_like() && f.status.is_generate()),
{
}

/// A registry with a function for one operation only asks for one
/// declaration where that operation is ordering, formatting or hashing, from
/// that function's version on and always where it has none; and for no
/// declaration where it is any other operation.
pub proof fn lemma_imports_of_one_operation(t: Type, info: TraitInfoView)
    ensures
        trait_imports(Map::<Type, TraitInfoView>::empty().insert(t, info)) == (match t {
            Type::Compare => seq![ImportView { name: "std::cmp"@, version: info.version }],
            Type::Display => seq![ImportView { name: "std::fmt"@, version: info.version }],
            Type::Hash => seq![ImportView { name: "std::hash"@, version: info.version }],
            _ => Seq::<ImportView>::empty(),
        }),
{
    let traits = Map::<Type, TraitInfoView>::empty().insert(t, info);
    assert(trait_imports(traits) =~= import_for(traits, Type::Compare, "std::cmp"@) + import_for(
        traits,
        Type::Display,
        "std::fmt"@,
    ) + import_for(traits, Type::Hash, "std::hash"@));
    match t {
        Type::Compare => {
            assert(trait_imports(traits) =~= seq![
                ImportView { name: "std::cmp"@, version: info.version },
            ]);
        },
        Type::Display => {
            assert(trait_imports(traits) =~= seq![
                ImportView { name: "std::fmt"@, version: info.version },
            ]);
        },
        Type::Hash => {
            assert(trait_imports(traits) =~= seq![
                ImportView { name: "std::hash"@, version: info.version },
            ]);
        },
        _ => {
            assert(trait_imports(traits) =~= Seq::<ImportView>::empty());
        },
    }
}

} // verus!
