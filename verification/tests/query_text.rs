use engine_query::query::{
    Buffer, OperationType, PlanField, PlanFieldArgument, PlanFragmentSpread, PlanInlineFragment, PlanSelection,
    PlanSelectionSet, PlanVariable, PlanWalker, PreparedFederationEntityOperation, PreparedGraphqlOperation,
    QueryBuilder,
};

fn s(text: &str) -> String {
    text.to_string()
}

fn set(ty: &str, requires_typename: bool, selections: Vec<PlanSelection>) -> PlanSelectionSet {
    PlanSelectionSet { ty_name: s(ty), requires_typename, selections }
}

fn leaf(name: &str) -> PlanSelection {
    PlanSelection::Field(PlanField { response_key: s(name), name: s(name), arguments: vec![], selection_set: None })
}

fn aliased(key: &str, name: &str) -> PlanSelection {
    PlanSelection::Field(PlanField { response_key: s(key), name: s(name), arguments: vec![], selection_set: None })
}

fn object(name: &str, arguments: Vec<PlanFieldArgument>, sub: PlanSelectionSet) -> PlanSelection {
    PlanSelection::Field(PlanField { response_key: s(name), name: s(name), arguments, selection_set: Some(sub) })
}

fn spread(fragment: &str, on: &str, sub: PlanSelectionSet) -> PlanSelection {
    PlanSelection::FragmentSpread(PlanFragmentSpread {
        fragment_name: s(fragment),
        type_condition_name: s(on),
        selection_set: sub,
    })
}

fn arg(name: &str, value: &str) -> PlanFieldArgument {
    PlanFieldArgument { name: s(name), value: s(value) }
}

fn var(name: &str, ty: &str) -> PlanVariable {
    PlanVariable { name: s(name), ty: s(ty) }
}

fn plan(id: usize, operation_type: OperationType, variables: Vec<PlanVariable>, selection_set: PlanSelectionSet) -> PlanWalker {
    PlanWalker { id, operation_type, variables, selection_set }
}

#[test]
fn query_with_nested_fields_and_alias() {
    let p = plan(
        0,
        OperationType::Query,
        vec![],
        set("Query", false, vec![object("me", vec![], set("User", false, vec![leaf("id"), aliased("n", "name")]))]),
    );
    let op = PreparedGraphqlOperation::build(p).unwrap();
    assert_eq!(op.query, "query {\n\tme {\n\t\tid\n\t\tn: name\n\t}\n}\n\n");
}

#[test]
fn operation_keywords() {
    let m = PreparedGraphqlOperation::build(plan(0, OperationType::Mutation, vec![], set("Mutation", false, vec![leaf("a")])))
        .unwrap();
    assert_eq!(m.query, "mutation {\n\ta\n}\n\n");
    let sub = PreparedGraphqlOperation::build(plan(0, OperationType::Subscription, vec![], set("Subscription", false, vec![leaf("a")])))
        .unwrap();
    assert_eq!(sub.query, "subscription {\n\ta\n}\n\n");
}

#[test]
fn query_with_variables_and_arguments() {
    let p = plan(
        0,
        OperationType::Query,
        vec![var("id", "ID!"), var("first", "Int")],
        set(
            "Query",
            false,
            vec![object("user", vec![arg("id", "$id"), arg("first", "$first")], set("User", false, vec![leaf("id")]))],
        ),
    );
    let op = PreparedGraphqlOperation::build(p).unwrap();
    assert_eq!(op.query, "query($id: ID!, $first: Int) {\n\tuser(id: $id, first: $first) {\n\t\tid\n\t}\n}\n\n");
}

#[test]
fn empty_selection_set_gets_typename() {
    let op = PreparedGraphqlOperation::build(plan(0, OperationType::Query, vec![], set("Query", false, vec![]))).unwrap();
    assert_eq!(op.query, "query {\n\t__typename\n}\n\n");
}

#[test]
fn required_typename_comes_first_and_only_once() {
    let op = PreparedGraphqlOperation::build(plan(0, OperationType::Query, vec![], set("Query", true, vec![leaf("a")]))).unwrap();
    assert_eq!(op.query, "query {\n\t__typename\n\ta\n}\n\n");
    let only = PreparedGraphqlOperation::build(plan(0, OperationType::Query, vec![], set("Query", true, vec![]))).unwrap();
    assert_eq!(only.query, "query {\n\t__typename\n}\n\n");
}

#[test]
fn fragments_are_deduplicated_by_body_and_numbered_per_name() {
    let p = plan(
        0,
        OperationType::Query,
        vec![],
        set(
            "Query",
            false,
            vec![
                spread("F", "User", set("User", false, vec![leaf("id")])),
                spread("F", "User", set("User", false, vec![leaf("id")])),
                spread("F", "User", set("User", false, vec![leaf("name")])),
                spread("G", "User", set("User", false, vec![leaf("id")])),
                spread("G", "Other", set("Other", false, vec![leaf("id")])),
            ],
        ),
    );
    let op = PreparedGraphqlOperation::build(p).unwrap();
    assert_eq!(
        op.query,
        "query {\n\t...F_0\n\t...F_0\n\t...F_1\n\t...F_0\n\t...G_0\n}\n\
         \nfragment F_0 on User {\n\tid\n}\n\
         \nfragment F_1 on User {\n\tname\n}\n\
         \nfragment G_0 on Other {\n\tid\n}\n"
    );
}

#[test]
fn nested_fragments_are_defined_before_the_fragment_using_them() {
    let inner = spread("Inner", "User", set("User", false, vec![leaf("id")]));
    let outer = spread("Outer", "User", set("User", false, vec![inner]));
    let op = PreparedGraphqlOperation::build(plan(0, OperationType::Query, vec![], set("Query", false, vec![outer]))).unwrap();
    assert_eq!(
        op.query,
        "query {\n\t...Outer_0\n}\n\
         \nfragment Inner_0 on User {\n\tid\n}\n\
         \nfragment Outer_0 on User {\n\t...Inner_0\n}\n"
    );
}

#[test]
fn many_fragments_with_one_name_get_two_digit_numbers() {
    let names = ["a", "b", "c", "d", "e", "f", "g", "h", "i", "j", "k"];
    let selections = names.iter().map(|n| spread("F", "T", set("T", false, vec![leaf(n)]))).collect();
    let op = PreparedGraphqlOperation::build(plan(0, OperationType::Query, vec![], set("Query", false, selections))).unwrap();
    assert!(op.query.contains("\t...F_10\n"));
    assert!(op.query.contains("\nfragment F_10 on T {\n\tk\n}\n"));
    assert!(op.query.contains("\nfragment F_9 on T {\n\tj\n}\n"));
}

#[test]
fn inline_fragments_with_and_without_condition() {
    let with = PlanSelection::InlineFragment(PlanInlineFragment {
        type_condition_name: Some(s("User")),
        selection_set: set("User", false, vec![leaf("id")]),
    });
    let without = PlanSelection::InlineFragment(PlanInlineFragment {
        type_condition_name: None,
        selection_set: set("Query", false, vec![leaf("x")]),
    });
    let op = PreparedGraphqlOperation::build(plan(0, OperationType::Query, vec![], set("Query", false, vec![with, without]))).unwrap();
    assert_eq!(op.query, "query {\n\t... on User {\n\t\tid\n\t}\n\t... {\n\t\tx\n\t}\n}\n\n");
}

#[test]
fn federation_entity_operation() {
    let op = PreparedFederationEntityOperation::build(plan(7, OperationType::Query, vec![], set("User", false, vec![leaf("id")])))
        .unwrap();
    assert_eq!(op.entities_variable, "representationsPlan7");
    assert_eq!(
        op.query,
        "query($representationsPlan7: [_Any!]!) {\n\t_entities(representations: $representationsPlan7) {\n\t\t__typename\
         \n\t\t... on User  {\n\t\t\tid\n\t\t}\n\t}\n}\n\n"
    );
}

#[test]
fn federation_entity_operation_with_variables_and_fragment() {
    let p = plan(
        1234,
        OperationType::Query,
        vec![var("a", "Int"), var("b", "String")],
        set("Product", true, vec![spread("P", "Product", set("Product", false, vec![leaf("upc")]))]),
    );
    let op = PreparedFederationEntityOperation::build(p).unwrap();
    assert_eq!(op.entities_variable, "representationsPlan1234");
    assert_eq!(
        op.query,
        "query($representationsPlan1234: [_Any!]!,$a: Int, $b: String) {\
         \n\t_entities(representations: $representationsPlan1234) {\n\t\t__typename\
         \n\t\t... on Product  {\n\t\t\t__typename\n\t\t\t...P_0\n\t\t}\n\t}\n}\n\
         \nfragment P_0 on Product {\n\tupc\n}\n"
    );
}

#[test]
fn write_arguments_joins_with_comma() {
    let mut builder = QueryBuilder::default();
    let mut buffer = Buffer::default();
    builder.write_arguments(&mut buffer, &vec![arg("a", "1"), arg("b", "\"x\"")]).unwrap();
    assert_eq!(buffer.inner, "(a: 1, b: \"x\")");
    let mut empty = Buffer::default();
    builder.write_arguments(&mut empty, &vec![]).unwrap();
    assert_eq!(empty.inner, "");
}

#[test]
fn indent_write_uses_the_current_level() {
    let mut buffer = Buffer::default();
    buffer.indent = 3;
    buffer.indent_write("x").unwrap();
    assert_eq!(buffer.inner, "\t\t\tx");
    assert_eq!(buffer.indent, 3);
}

#[test]
fn selection_set_restores_indentation() {
    let mut builder = QueryBuilder::default();
    let mut buffer = Buffer::default();
    buffer.indent = 1;
    builder
        .write_selection_set(&mut buffer, &set("T", false, vec![object("a", vec![], set("U", false, vec![leaf("b")]))]))
        .unwrap();
    assert_eq!(buffer.indent, 1);
    assert_eq!(buffer.inner, " {\n\t\ta {\n\t\t\tb\n\t\t}\n\t}\n");
}

#[test]
fn write_fragments_and_variables_directly() {
    let mut builder = QueryBuilder::default();
    let mut buffer = Buffer::default();
    builder.write_fragment_spread(&mut buffer, &PlanFragmentSpread {
        fragment_name: s("X"),
        type_condition_name: s("T"),
        selection_set: set("T", false, vec![leaf("f")]),
    }).unwrap();
    assert_eq!(buffer.inner, "...X_0\n");
    let mut out = String::new();
    builder.write_fragments(&mut out);
    assert_eq!(out, "\nfragment X_0 on T {\n\tf\n}\n");
    let mut vars = String::new();
    builder.write_operation_arguments_without_parenthesis(&vec![var("v", "Int!"), var("w", "[ID]")], &mut vars);
    assert_eq!(vars, "$v: Int!, $w: [ID]");
}

#[test]
fn field_and_inline_fragment_writers() {
    let mut builder = QueryBuilder::default();
    let mut buffer = Buffer::default();
    buffer.indent = 1;
    builder
        .write_field(&mut buffer, &PlanField { response_key: s("k"), name: s("n"), arguments: vec![arg("x", "2")], selection_set: None })
        .unwrap();
    assert_eq!(buffer.inner, "\tk: n(x: 2)\n");
    let mut inline = Buffer::default();
    builder
        .write_inline_fragment(&mut inline, &PlanInlineFragment {
            type_condition_name: Some(s("A")),
            selection_set: set("A", false, vec![]),
        })
        .unwrap();
    assert_eq!(inline.inner, "... on A {\n\t__typename\n}\n");
}
