//! What rules are defined as.
use crate::ast::{
    GenericArg, Group, GroupRule, Identifier, RangeCtlOp, Rule, Type, Type1, Type2, TypeRule,
};
use crate::intermediate::{
    FixedValueView, MinMax, Primitive, Representation, RustStructTypeView, RustStructView,
    RustTypeView, TypeAliasView, TypesView,
};
use crate::laws::admits;
use crate::laws::choices::{
    adds_definition, chosen_in_turn, law_choice_is_record, law_group_is_enum,
};
use crate::laws::groups::{is_record_of, typed_in_turn};
use crate::laws::members::{
    is_enum_over, law_alternatives_in_turn, law_names_among_alternatives, law_variants_hold_types,
    represented_in_turn,
};
use crate::model::{
    choices_meaning, group_defined, group_supported, is_null, number_literal, range_bounds,
    range_supported, rule_defined, rule_params, rule_supported, type1_defined, type1_supported,
    type2_meaning, type_choices_defined, type_choices_supported,
};
use crate::utils::camel_case;
use vstd::prelude::*;

verus! {

// Bounds.

/// Whether `n` is the value of an integer literal. That of an unsigned literal which is too
/// large for a signed number is one that wraps around.
pub open spec fn is_value_of(n: int, t: Type2) -> bool {
    match t {
        Type2::IntValue { value } => n == value,
        Type2::UintValue { value } => isize::MIN <= n <= isize::MAX && (n == value || n == value
            - usize::MAX - 1),
        _ => false,
    }
}

/// Whether the bounds let `v` pass exactly if the operator does, as far as `v` goes. Of
/// `.ne` the two bounds are a gap around the number, and every other one is beyond one of
/// them. The upper end of `...` is one above the number that is written.
pub open spec fn bounds_say(bounds: MinMax, range: (RangeCtlOp, Type2), v: int) -> bool {
    range.0 matches RangeCtlOp::CtlOp { ctrl } && if ctrl@ == ".size"@ {
        match range.1 {
            Type2::ParenthesizedType { pt } => {
                let lower = pt.type_choices@[0].type2;
                match pt.type_choices@[0].operator {
                    Some((RangeCtlOp::RangeOp { is_inclusive: true }, upper)) => forall|
                        a: int,
                        b: int,
                    |
                        #![trigger is_value_of(a, lower), is_value_of(b, upper)]
                        is_value_of(a, lower) && is_value_of(b, upper) ==> (admits(bounds, v)
                            <==> a <= v <= b),
                    Some((RangeCtlOp::RangeOp { is_inclusive: false }, upper)) => forall|
                        a: int,
                        b: int,
                    |
                        #![trigger is_value_of(a, lower), is_value_of(b, upper)]
                        is_value_of(a, lower) && is_value_of(b, upper) ==> (admits(bounds, v)
                            <==> a <= v <= b + 1),
                    Some(_) => false,
                    None => forall|n: int| #[trigger]
                        is_value_of(n, lower) ==> (admits(bounds, v) <==> v == n),
                }
            },
            t => forall|n: int| #[trigger] is_value_of(n, t) ==> (admits(bounds, v) <==> v == n),
        }
    } else {
        forall|n: int| #[trigger]
            is_value_of(n, range.1) ==> {
                &&& ctrl@ == ".eq"@ ==> (admits(bounds, v) <==> v == n)
                &&& ctrl@ == ".le"@ ==> (admits(bounds, v) <==> v <= n)
                &&& ctrl@ == ".lt"@ ==> (admits(bounds, v) <==> v < n)
                &&& ctrl@ == ".ge"@ ==> (admits(bounds, v) <==> v >= n)
                &&& ctrl@ == ".gt"@ ==> (admits(bounds, v) <==> v > n)
                &&& ctrl@ == ".ne"@ ==> (bounds matches (Some(min), Some(max)) && max < min && (v
                    != n <==> (min <= v || v <= max)))
            }
    }
}

/// The bounds of an operator let exactly those numbers pass that the operator does.
pub proof fn law_bounds(range: (RangeCtlOp, Type2), v: int)
    requires
        range_supported(range),
    ensures
        bounds_say(range_bounds(range), range, v),
{
    reveal_strlit(".size");
    reveal_strlit(".eq");
    reveal_strlit(".ne");
    reveal_strlit(".le");
    reveal_strlit(".lt");
    reveal_strlit(".ge");
    reveal_strlit(".gt");
    assert(".ne"@[1] != ".eq"@[1]);
    assert(".le"@[1] != ".eq"@[1]);
    assert(".le"@[1] != ".ne"@[1]);
    assert(".lt"@[1] != ".eq"@[1]);
    assert(".lt"@[1] != ".ne"@[1]);
    assert(".lt"@[2] != ".le"@[2]);
    assert(".ge"@[1] != ".eq"@[1]);
    assert(".ge"@[1] != ".ne"@[1]);
    assert(".ge"@[1] != ".le"@[1]);
    assert(".ge"@[1] != ".lt"@[1]);
    assert(".gt"@[1] != ".eq"@[1]);
    assert(".gt"@[1] != ".ne"@[1]);
    assert(".gt"@[1] != ".le"@[1]);
    assert(".gt"@[1] != ".lt"@[1]);
    assert(".gt"@[2] != ".ge"@[2]);
}

/// An integer literal has one value.
pub proof fn law_literal_has_a_value(t: Type2, n: int)
    requires
        t is UintValue || t is IntValue,
    ensures
        is_value_of(n, t) <==> n == number_literal(t),
{
}

// Definitions of names.

/// `after` is `before`, but that `name` is an alias of `base`.
pub open spec fn adds_alias(
    before: TypesView,
    after: TypesView,
    name: Seq<char>,
    base: RustTypeView,
    generate: bool,
) -> bool {
    &&& after.type_aliases == before.type_aliases.insert(
        name,
        TypeAliasView { base_type: base, generate },
    )
    &&& after == (TypesView { type_aliases: after.type_aliases, ..before })
}

/// Whether `name` is defined in `after` as a wrapper of bytes whose bounds are those of the
/// operator, and wherever the name occurs bytes are used. Nothing else is different from
/// `before`.
pub open spec fn adds_bounded_bytes(
    before: TypesView,
    after: TypesView,
    name: Seq<char>,
    tag: Option<usize>,
    range: (RangeCtlOp, Type2),
    v: int,
) -> bool {
    let bytes = RustTypeView::Primitive(Primitive::Bytes);
    let definition = after.rust_structs[name];
    &&& after.rust_structs == before.rust_structs.insert(name, definition)
    &&& definition.ident == name
    &&& definition.tag == tag
    &&& definition.variant matches RustStructTypeView::Wrapper { wrapped, min_max: Some(bounds) }
        && wrapped == bytes && bounds_say(bounds, range, v)
    &&& adds_alias(
        TypesView { rust_structs: after.rust_structs, ..before },
        after,
        name,
        bytes,
        false,
    )
}

/// A name with an operator is defined as bytes within the bounds of the operator.
pub proof fn law_bounded_name(
    types: TypesView,
    name: Seq<char>,
    t: Type1,
    range: (RangeCtlOp, Type2),
    outer_tag: Option<usize>,
    params: Option<Seq<Seq<char>>>,
    v: int,
)
    requires
        type1_supported(types, name, t, outer_tag, params),
        t.type2 is Typename,
        t.operator == Some(range),
    ensures
        adds_bounded_bytes(
            types,
            type1_defined(types, name, t, outer_tag, params),
            name,
            outer_tag,
            range,
            v,
        ),
{
    law_bounds(range, v);
    let after = type1_defined(types, name, t, outer_tag, params);
    assert(after.rust_structs =~= types.rust_structs.insert(name, after.rust_structs[name]));
}

/// Whether `name` is defined in `after` as the instance of the generic type with the
/// arguments that are written, in that order. An argument that is a name is what the name
/// stands for in `before`. Nothing else is added but what the arguments define.
pub open spec fn adds_instance(
    before: TypesView,
    after: TypesView,
    name: Seq<char>,
    generic: Identifier,
    args: Seq<Type1>,
    tables: Seq<TypesView>,
) -> bool {
    let made = tables.last();
    let instance = after.generic_instances[name];
    &&& tables[0] == before
    &&& after.generic_instances == made.generic_instances.insert(name, instance)
    &&& after == (TypesView { generic_instances: after.generic_instances, ..made })
    &&& instance.instance_ident == name
    &&& instance.generic_ident == camel_case(generic.text())
    &&& represented_in_turn(instance.generic_args, args, tables)
    &&& forall|i: int|
        0 <= i < args.len() ==> ((#[trigger] args[i]).type2 matches Type2::Typename {
            ident,
            generic_arg: None,
        } ==> instance.generic_args[i] == before.new_type(ident.ident@))
}

/// A name with type arguments is defined as an instance.
pub proof fn law_instance(
    types: TypesView,
    name: Seq<char>,
    t: Type1,
    generic: Identifier,
    arg: GenericArg,
    outer_tag: Option<usize>,
    params: Option<Seq<Seq<char>>>,
) -> (tables: Seq<TypesView>)
    requires
        type1_supported(types, name, t, outer_tag, params),
        t.type2 == (Type2::Typename { ident: generic, generic_arg: Some(arg) }),
        t.operator is None,
    ensures
        adds_instance(
            types,
            type1_defined(types, name, t, outer_tag, params),
            name,
            generic,
            arg.args@,
            tables,
        ),
{
    let args = arg.args@;
    let after = type1_defined(types, name, t, outer_tag, params);
    let tables = law_alternatives_in_turn(types, args);
    assert forall|i: int| 0 <= i < args.len() implies ((#[trigger] args[i]).type2 matches
        Type2::Typename { ident, generic_arg: None }
        ==> after.generic_instances[name].generic_args[i] == types.new_type(ident.ident@)) by {
        law_names_among_alternatives(types, args, i);
    }
    assert(after.generic_instances =~= tables.last().generic_instances.insert(
        name,
        after.generic_instances[name],
    ));
    tables
}

/// A name alone is defined as an alias of what it stands for, and of what that is an alias
/// of where it is one.
pub proof fn law_alias(
    types: TypesView,
    name: Seq<char>,
    t: Type1,
    other: Identifier,
    outer_tag: Option<usize>,
    params: Option<Seq<Seq<char>>>,
)
    requires
        t.type2 == (Type2::Typename { ident: other, generic_arg: None }),
        t.operator is None,
    ensures
        ({
            let after = type1_defined(types, name, t, outer_tag, params);
            match types.new_type(other.text()) {
                RustTypeView::Alias(_, base) => adds_alias(types, after, name, *base, true),
                base => adds_alias(types, after, name, base, true),
            }
        }),
{
}

/// A literal is defined as an alias of the type that has no other value. An operator, a tag
/// around it and type parameters have no part in this.
pub proof fn law_literal(
    types: TypesView,
    name: Seq<char>,
    t: Type1,
    outer_tag: Option<usize>,
    params: Option<Seq<Seq<char>>>,
)
    ensures
        ({
            let after = type1_defined(types, name, t, outer_tag, params);
            &&& t.type2 matches Type2::UintValue { value } ==> adds_alias(
                types,
                after,
                name,
                RustTypeView::Fixed(FixedValueView::Uint(value)),
                true,
            )
            &&& t.type2 matches Type2::IntValue { value } ==> adds_alias(
                types,
                after,
                name,
                RustTypeView::Fixed(FixedValueView::Int(value)),
                true,
            )
            &&& t.type2 matches Type2::TextValue { value } ==> adds_alias(
                types,
                after,
                name,
                RustTypeView::Fixed(FixedValueView::Text(value@)),
                true,
            )
        }),
{
}

/// A group in braces is defined as one that is represented by key, and a group in brackets
/// as one that is represented by position, both under the tag around them.
pub proof fn law_group(
    types: TypesView,
    name: Seq<char>,
    t: Type1,
    outer_tag: Option<usize>,
    params: Option<Seq<Seq<char>>>,
)
    ensures
        t.type2 matches Type2::Mapping { group } ==> type1_defined(
            types,
            name,
            t,
            outer_tag,
            params,
        ) == group_defined(types, group, name, Representation::Mapping, outer_tag, params),
        t.type2 matches Type2::Array { group } ==> type1_defined(types, name, t, outer_tag, params)
            == group_defined(types, group, name, Representation::Array, outer_tag, params),
{
}

/// A tag on a name is defined as a wrapper with that tag of what the name stands for. The
/// bounds are those of an operator on the whole, if there is one.
pub proof fn law_tagged_name(
    types: TypesView,
    name: Seq<char>,
    t: Type1,
    tag: Option<usize>,
    tagged: Type,
    other: Identifier,
    params: Option<Seq<Seq<char>>>,
    v: int,
)
    requires
        type1_supported(types, name, t, None, params),
        t.type2 == (Type2::TaggedData { tag, t: tagged }),
        tagged.type_choices@.len() == 1,
        tagged.type_choices@[0].type2 matches Type2::Typename { ident, .. } && ident == other,
    ensures
        tag is Some,
        ({
            let after = type1_defined(types, name, t, None, params);
            let definition = after.rust_structs[name];
            &&& adds_definition(types, after, definition, None)
            &&& definition.ident == name
            &&& definition.tag == tag
            &&& definition.variant matches RustStructTypeView::Wrapper { wrapped, min_max }
                && wrapped == types.new_type(other.text()) && match t.operator {
                Some(range) => min_max matches Some(bounds) && bounds_say(bounds, range, v),
                None => min_max is None,
            }
        }),
{
    if let Some(range) = t.operator {
        law_bounds(range, v);
    }
    let after = type1_defined(types, name, t, None, params);
    assert(after.rust_structs =~= types.rust_structs.insert(name, after.rust_structs[name]));
}

/// A tag on a group or on alternatives is defined as these are, under the tag.
pub proof fn law_tagged(
    types: TypesView,
    name: Seq<char>,
    t: Type1,
    tag: Option<usize>,
    tagged: Type,
    params: Option<Seq<Seq<char>>>,
)
    requires
        type1_supported(types, name, t, None, params),
        t.type2 == (Type2::TaggedData { tag, t: tagged }),
    ensures
        tag is Some,
        ({
            let after = type1_defined(types, name, t, None, params);
            &&& tagged.type_choices@.len() == 1 ==> match tagged.type_choices@[0].type2 {
                Type2::Mapping { group } => after == group_defined(
                    types,
                    group,
                    name,
                    Representation::Mapping,
                    tag,
                    params,
                ),
                Type2::Array { group } => after == group_defined(
                    types,
                    group,
                    name,
                    Representation::Array,
                    tag,
                    params,
                ),
                other => other is Typename,
            }
            &&& tagged.type_choices@.len() != 1 ==> after == type_choices_defined(
                types,
                name,
                tagged.type_choices@,
                tag,
                params,
            )
        }),
{
    if tagged.type_choices@.len() == 1 {
        let inner = tagged.type_choices@[0];
        law_group(types, name, inner, tag, params);
        assert(inner.type2 is Typename || type1_supported(types, name, inner, tag, params));
        assert(inner.type2 is Typename || type1_defined(types, name, t, None, params)
            == type1_defined(types, name, inner, tag, params));
    }
}

// Alternatives.

/// Null and one more alternative, whichever comes first, are defined as an option of the
/// latter: as an alias, or as a wrapper with the tag where there is one.
pub proof fn law_option(
    types: TypesView,
    name: Seq<char>,
    choices: Seq<Type1>,
    tag: Option<usize>,
    params: Option<Seq<Seq<char>>>,
    i: int,
    j: int,
)
    requires
        choices.len() == 2,
        0 <= i <= 1,
        j == 1 - i,
        is_null(choices[i].type2),
        !is_null(choices[j].type2) || i == 0,
    ensures
        ({
            let after = type_choices_defined(types, name, choices, tag, params);
            let (inner, made) = type2_meaning(types, choices[j].type2);
            let option = RustTypeView::Optional(Box::new(inner));
            match tag {
                Some(_) => adds_definition(
                    made,
                    after,
                    RustStructView {
                        ident: name,
                        tag,
                        variant: RustStructTypeView::Wrapper { wrapped: option, min_max: None },
                    },
                    None,
                ),
                None => adds_alias(made, after, name, option, true),
            }
        }),
{
}

/// Alternatives of which not one of two is null are defined as an enum over what they are
/// represented by, in order.
pub proof fn law_enum(
    types: TypesView,
    name: Seq<char>,
    choices: Seq<Type1>,
    tag: Option<usize>,
    params: Option<Seq<Seq<char>>>,
) -> (tables: Seq<TypesView>)
    requires
        type_choices_supported(choices, params),
        choices.len() == 2 ==> !is_null(choices[0].type2) && !is_null(choices[1].type2),
    ensures
        ({
            let after = type_choices_defined(types, name, choices, tag, params);
            let definition = match params {
                Some(_) => after.generic_defs[name].definition,
                None => after.rust_structs[name],
            };
            &&& tables[0] == types
            &&& adds_definition(tables.last(), after, definition, params)
            &&& definition.ident == name
            &&& definition.tag == tag
            &&& definition.variant matches RustStructTypeView::TypeChoice { variants }
                && exists|alternatives: Seq<RustTypeView>|
                is_enum_over(variants, alternatives) && #[trigger] represented_in_turn(
                    alternatives,
                    choices,
                    tables,
                ) && forall|i: int|
                    0 <= i < choices.len() ==> ((#[trigger] choices[i]).type2 matches
                        Type2::Typename { ident, generic_arg: None } ==> alternatives[i]
                        == types.new_type(ident.ident@))
        }),
{
    let alternatives = choices_meaning(types, choices).0;
    let tables = law_alternatives_in_turn(types, choices);
    law_variants_hold_types(alternatives);
    assert forall|i: int| 0 <= i < choices.len() implies ((#[trigger] choices[i]).type2 matches
        Type2::Typename { ident, generic_arg: None } ==> alternatives[i] == types.new_type(
        ident.ident@,
    )) by {
        law_names_among_alternatives(types, choices, i);
    }
    assert(represented_in_turn(alternatives, choices, tables));
    tables
}

// Rules.

/// The type parameters of a rule are those that are written, in order, as Rust names.
pub proof fn law_params(rule: TypeRule)
    ensures
        rule_params(rule) is Some <==> rule.generic_param is Some,
        rule.generic_param matches Some(generic) ==> (rule_params(rule) matches Some(params)
            && params.len() == generic.params@.len() && forall|i: int|
            0 <= i < params.len() ==> #[trigger] params[i] == camel_case(
                generic.params@[i].text(),
            )),
{
}

/// A rule defines its name, as a Rust name, as its type is defined. There is no tag around
/// the type.
pub proof fn law_rule(types: TypesView, rule: TypeRule)
    ensures
        ({
            let name = camel_case(rule.name.text());
            let choices = rule.value.type_choices@;
            let after = rule_defined(types, Rule::Type { rule });
            &&& choices.len() == 1 ==> after == type1_defined(
                types,
                name,
                choices[0],
                None,
                rule_params(rule),
            )
            &&& choices.len() != 1 ==> after == type_choices_defined(
                types,
                name,
                choices,
                None,
                rule_params(rule),
            )
        }),
{
}

/// The rule of a group leaves the table as it is.
pub proof fn law_group_rule(types: TypesView, rule: GroupRule)
    ensures
        rule_defined(types, Rule::Group { rule }) == types,
{
}

/// After a rule that puts an operator on a name, the name of the rule is bytes within the
/// bounds that the operator says.
pub proof fn law_rule_with_bounds(
    types: TypesView,
    rule: TypeRule,
    range: (RangeCtlOp, Type2),
    v: int,
)
    requires
        rule_supported(types, Rule::Type { rule }),
        rule.value.type_choices@.len() == 1,
        rule.value.type_choices@[0].type2 is Typename,
        rule.value.type_choices@[0].operator == Some(range),
    ensures
        adds_bounded_bytes(
            types,
            rule_defined(types, Rule::Type { rule }),
            camel_case(rule.name.text()),
            None,
            range,
            v,
        ),
{
    law_bounded_name(
        types,
        camel_case(rule.name.text()),
        rule.value.type_choices@[0],
        range,
        None,
        rule_params(rule),
        v,
    );
}

/// After a rule for an instance, the name of the rule is that instance, with the arguments
/// in the order in which they are written.
pub proof fn law_rule_of_instance(
    types: TypesView,
    rule: TypeRule,
    generic: Identifier,
    arg: GenericArg,
) -> (tables: Seq<TypesView>)
    requires
        rule_supported(types, Rule::Type { rule }),
        rule.value.type_choices@.len() == 1,
        rule.value.type_choices@[0].type2 == (Type2::Typename {
            ident: generic,
            generic_arg: Some(arg),
        }),
        rule.value.type_choices@[0].operator is None,
    ensures
        adds_instance(
            types,
            rule_defined(types, Rule::Type { rule }),
            camel_case(rule.name.text()),
            generic,
            arg.args@,
            tables,
        ),
{
    law_instance(
        types,
        camel_case(rule.name.text()),
        rule.value.type_choices@[0],
        generic,
        arg,
        None,
        rule_params(rule),
    )
}

/// After a rule for a tagged name, the name of the rule is a wrapper with the tag of what the
/// tagged name stands for.
pub proof fn law_rule_of_tagged_name(
    types: TypesView,
    rule: TypeRule,
    tag: Option<usize>,
    tagged: Type,
    other: Identifier,
)
    requires
        rule_supported(types, Rule::Type { rule }),
        rule.value.type_choices@.len() == 1,
        rule.value.type_choices@[0].type2 == (Type2::TaggedData { tag, t: tagged }),
        rule.value.type_choices@[0].operator is None,
        tagged.type_choices@.len() == 1,
        tagged.type_choices@[0].type2 matches Type2::Typename { ident, .. } && ident == other,
    ensures
        tag is Some,
        adds_definition(
            types,
            rule_defined(types, Rule::Type { rule }),
            RustStructView {
                ident: camel_case(rule.name.text()),
                tag,
                variant: RustStructTypeView::Wrapper {
                    wrapped: types.new_type(other.text()),
                    min_max: None,
                },
            },
            None,
        ),
{
    law_tagged_name(
        types,
        camel_case(rule.name.text()),
        rule.value.type_choices@[0],
        tag,
        tagged,
        other,
        rule_params(rule),
        0,
    );
}

/// The group that a rule is for, with or without a tag around it, and the tag.
pub open spec fn is_rule_of_group(
    rule: TypeRule,
    group: Group,
    rep: Representation,
    tag: Option<usize>,
) -> bool {
    let choices = rule.value.type_choices@;
    let braced = match rep {
        Representation::Mapping => Type2::Mapping { group },
        Representation::Array => Type2::Array { group },
    };
    &&& choices.len() == 1
    &&& match tag {
        Some(_) => choices[0].type2 matches Type2::TaggedData { tag: around, t } && around == tag
            && t.type_choices@.len() == 1 && t.type_choices@[0].type2 == braced,
        None => choices[0].type2 == braced,
    }
}

proof fn lemma_rule_of_group(
    types: TypesView,
    rule: TypeRule,
    group: Group,
    rep: Representation,
    tag: Option<usize>,
)
    requires
        rule_supported(types, Rule::Type { rule }),
        is_rule_of_group(rule, group, rep, tag),
    ensures
        ({
            let name = camel_case(rule.name.text());
            let params = rule_params(rule);
            &&& group_supported(types, group, name, rep, params)
            &&& rule_defined(types, Rule::Type { rule }) == group_defined(
                types,
                group,
                name,
                rep,
                tag,
                params,
            )
        }),
{
    let name = camel_case(rule.name.text());
    let params = rule_params(rule);
    let t = rule.value.type_choices@[0];
    if let Type2::TaggedData { t: tagged, .. } = t.type2 {
        law_tagged(types, name, t, tag, tagged, params);
        assert(type1_supported(types, name, tagged.type_choices@[0], tag, params));
    } else {
        law_group(types, name, t, None, params);
    }
}

/// After a rule for a group with one choice, which is not a map with one entry, the name of
/// the rule is a record: each field has the name, the type and the key of its entry, and may
/// be left out where the entry is marked so.
pub proof fn law_rule_of_record(
    types: TypesView,
    rule: TypeRule,
    group: Group,
    rep: Representation,
    tag: Option<usize>,
) -> (tables: Seq<TypesView>)
    requires
        rule_supported(types, Rule::Type { rule }),
        is_rule_of_group(rule, group, rep, tag),
        group.group_choices@.len() == 1,
        rep == Representation::Array || group.group_choices@[0].group_entries@.len() != 1,
    ensures
        ({
            let name = camel_case(rule.name.text());
            let params = rule_params(rule);
            let entries = group.group_choices@[0].group_entries@;
            let after = rule_defined(types, Rule::Type { rule });
            let definition = match params {
                Some(_) => after.generic_defs[name].definition,
                None => after.rust_structs[name],
            };
            &&& tables[0] == types
            &&& adds_definition(tables.last(), after, definition, params)
            &&& definition.ident == name
            &&& definition.tag == tag
            &&& definition.variant matches RustStructTypeView::Record(record) && is_record_of(
                record,
                entries,
                rep,
            ) && typed_in_turn(record.fields, entries, rep, tables)
        }),
{
    lemma_rule_of_group(types, rule, group, rep, tag);
    law_choice_is_record(
        types,
        group.group_choices@[0],
        camel_case(rule.name.text()),
        rep,
        tag,
        rule_params(rule),
    )
}

/// After a rule for a group with several choices, the name of the rule is an enum over them,
/// and each choice whose entries are not one is a record of its own, with the representation
/// of the group.
pub proof fn law_rule_of_choices(
    types: TypesView,
    rule: TypeRule,
    group: Group,
    rep: Representation,
    tag: Option<usize>,
) -> (tables: Seq<TypesView>)
    requires
        rule_supported(types, Rule::Type { rule }),
        is_rule_of_group(rule, group, rep, tag),
        group.group_choices@.len() != 1,
    ensures
        ({
            let name = camel_case(rule.name.text());
            let after = rule_defined(types, Rule::Type { rule });
            let definition = after.rust_structs[name];
            &&& tables[0] == types
            &&& adds_definition(tables.last(), after, definition, None)
            &&& definition.ident == name
            &&& definition.tag == tag
            &&& definition.variant matches RustStructTypeView::GroupChoice {
                variants,
                rep: represented,
            } && represented == rep && chosen_in_turn(
                variants,
                group.group_choices@,
                name,
                rep,
                tables,
            )
        }),
{
    lemma_rule_of_group(types, rule, group, rep, tag);
    law_group_is_enum(
        types,
        group,
        camel_case(rule.name.text()),
        rep,
        tag,
        rule_params(rule),
    )
}

} // verus!
