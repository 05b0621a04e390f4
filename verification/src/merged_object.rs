//! The parts of the code that the `MergedObject` derive generates.
//!
//! A merged object resolves a field by asking each of its fields in turn, which the derive
//! expresses as a chain `MergedObject(&self.n, ... MergedObject(&self.0, MergedObjectTail))`
//! with the last field outermost, and the matching chain of types.
use vstd::prelude::*;
use vstd::string::StringExecFns;

use crate::text::{decimal, push_decimal};

verus! {

/// The shape of the item the derive is applied to.
pub enum MergedObjectData {
    /// A struct, with the types of its fields in order, as written in the source.
    Struct(Vec<String>),
    /// Anything else.
    Other,
}

/// Why the derive refused an item.
#[derive(Debug, PartialEq, Eq, Structural)]
pub enum MergedObjectError {
    NotAStruct,
}

impl MergedObjectError {
    /// The message reported at the item.
    pub fn message(&self) -> (m: String)
        ensures
            m@ == "MergedObject can only be applied to an struct."@,
    {
        String::from_str("MergedObject can only be applied to an struct.")
    }
}

/// The field types of a struct; any other item is refused.
pub fn merged_object_fields(data: &MergedObjectData) -> (r: Result<&Vec<String>, MergedObjectError>)
    ensures
        match data {
            MergedObjectData::Struct(fields) => r == Ok::<&Vec<String>, MergedObjectError>(fields),
            MergedObjectData::Other => r == Err::<&Vec<String>, MergedObjectError>(MergedObjectError::NotAStruct),
        },
{
    match data {
        MergedObjectData::Struct(fields) => Ok(fields),
        MergedObjectData::Other => Err(MergedObjectError::NotAStruct),
    }
}

/// The GraphQL name of the type: the name given to the derive, else the renamed identifier.
pub fn gql_typename(name: &Option<String>, renamed_ident: &String) -> (n: String)
    ensures
        n@ == match name {
            Some(given) => given@,
            None => renamed_ident@,
        },
{
    match name {
        Some(given) => given.clone(),
        None => renamed_ident.clone(),
    }
}

/// The expression that merges the first `n` fields of `self`, the last one outermost.
pub open spec fn merged_expr(crate_name: Seq<char>, n: nat) -> Seq<char>
    decreases n,
{
    if n == 0 {
        crate_name + "::MergedObjectTail"@
    } else {
        crate_name + "::MergedObject(&self."@ + decimal((n - 1) as nat) + ", "@ + merged_expr(crate_name, (n - 1) as nat) + ")"@
    }
}

/// The type of the merge of fields with the given types, the last one outermost.
pub open spec fn merged_type(crate_name: Seq<char>, types: Seq<Seq<char>>) -> Seq<char>
    decreases types.len(),
{
    if types.len() == 0 {
        crate_name + "::MergedObjectTail"@
    } else {
        crate_name + "::MergedObject::<"@ + types.last() + ", "@ + merged_type(crate_name, types.drop_last()) + ">"@
    }
}

/// Builds the merge expression over the first `field_count` fields.
pub fn merged_object_expr(crate_name: &str, field_count: usize) -> (e: String)
    ensures
        e@ == merged_expr(crate_name@, field_count as nat),
{
    let mut obj = String::from_str(crate_name);
    obj.append("::MergedObjectTail");
    let mut i: usize = 0;
    while i < field_count
        invariant
            i <= field_count,
            obj@ == merged_expr(crate_name@, i as nat),
        decreases field_count - i,
    {
        let mut next = String::from_str(crate_name);
        next.append("::MergedObject(&self.");
        push_decimal(&mut next, i);
        next.append(", ");
        next.append(obj.as_str());
        next.append(")");
        obj = next;
        i = i + 1;
    }
    obj
}

/// Builds the type of the merge of fields with the given types.
pub fn merged_object_type(crate_name: &str, field_types: &Vec<String>) -> (t: String)
    ensures
        t@ == merged_type(crate_name@, field_types@.map_values(|s: String| s@)),
{
    let ghost types = field_types@.map_values(|s: String| s@);
    let mut obj = String::from_str(crate_name);
    obj.append("::MergedObjectTail");
    let mut i: usize = 0;
    assert(types.take(0) =~= Seq::<Seq<char>>::empty());
    while i < field_types.len()
        invariant
            i <= field_types@.len(),
            types == field_types@.map_values(|s: String| s@),
            obj@ == merged_type(crate_name@, types.take(i as int)),
        decreases field_types@.len() - i,
    {
        let mut next = String::from_str(crate_name);
        next.append("::MergedObject::<");
        next.append(field_types[i].as_str());
        next.append(", ");
        next.append(obj.as_str());
        next.append(">");
        assert(types.take(i + 1).drop_last() =~= types.take(i as int));
        assert(types.take(i + 1).last() == field_types@[i as int]@);
        obj = next;
        i = i + 1;
    }
    assert(types.take(i as int) =~= types);
    obj
}

/// How the container is resolved: field by field in order when `serial`, concurrently otherwise.
pub open spec fn resolve_container_text(crate_name: Seq<char>, serial: bool) -> Seq<char> {
    crate_name + if serial {
        "::resolver_utils::resolve_container_serial_native(ctx, self).await"@
    } else {
        "::resolver_utils::resolve_container_native(ctx, self).await"@
    }
}

pub fn resolve_container_call(crate_name: &str, serial: bool) -> (c: String)
    ensures
        c@ == resolve_container_text(crate_name@, serial),
{
    let mut call = String::from_str(crate_name);
    if serial {
        call.append("::resolver_utils::resolve_container_serial_native(ctx, self).await");
    } else {
        call.append("::resolver_utils::resolve_container_native(ctx, self).await");
    }
    call
}


/// `m` copies of the closing character `ch`.
pub open spec fn closers(ch: char, m: nat) -> Seq<char>
    decreases m,
{
    if m == 0 {
        Seq::empty()
    } else {
        closers(ch, (m - 1) as nat).push(ch)
    }
}

/// The merge expression over `n` fields is built in layers: counting from the inside, the
/// layer of field `k` (for every `k < n`) holds `&self.k`, with `k` in decimal, and wraps
/// exactly the merge of the fields before it; only the closing brackets of the layers of
/// the later fields follow it. The innermost part is the tail. So every field is merged
/// exactly once, the last one outermost, and no other field is referred to.
pub proof fn lemma_merged_expr_layers(crate_name: Seq<char>, n: nat, k: nat)
    requires
        k < n,
    ensures
        ({
            let text = merged_expr(crate_name, n);
            let layer = crate_name + "::MergedObject(&self."@ + decimal(k) + ", "@ + merged_expr(crate_name, k) + ")"@
                + closers(')', (n - 1 - k) as nat);
            &&& layer.len() <= text.len()
            &&& text.subrange(text.len() - layer.len(), text.len() as int) == layer
        }),
        merged_expr(crate_name, 0) == crate_name + "::MergedObjectTail"@,
    decreases n,
{
    let text = merged_expr(crate_name, n);
    let core = crate_name + "::MergedObject(&self."@ + decimal(k) + ", "@ + merged_expr(crate_name, k) + ")"@;
    if k == n - 1 {
        assert(closers(')', 0) =~= Seq::<char>::empty());
        assert(core + closers(')', 0) =~= core);
        assert(text =~= core);
        assert(text.subrange(0, text.len() as int) =~= text);
    } else {
        lemma_merged_expr_layers(crate_name, (n - 1) as nat, k);
        let m = merged_expr(crate_name, (n - 1) as nat);
        let t = core + closers(')', (n - 2 - k) as nat);
        let layer = core + closers(')', (n - 1 - k) as nat);
        reveal_strlit(")");
        assert(layer =~= t + ")"@);
        let p = crate_name + "::MergedObject(&self."@ + decimal((n - 1) as nat) + ", "@;
        assert(text =~= p + m + ")"@);
        assert(text.subrange(text.len() - layer.len(), text.len() as int) =~= m.subrange(m.len() - t.len(), m.len() as int) + ")"@);
    }
}

/// The merged type over the field types is built in layers: counting from the inside, the
/// layer of field `k` holds the type of field `k` and wraps exactly the merged type of the
/// fields before it; only the closing brackets of the later layers follow it.
pub proof fn lemma_merged_type_layers(crate_name: Seq<char>, types: Seq<Seq<char>>, k: int)
    requires
        0 <= k < types.len(),
    ensures
        ({
            let text = merged_type(crate_name, types);
            let layer = crate_name + "::MergedObject::<"@ + types[k] + ", "@ + merged_type(crate_name, types.take(k)) + ">"@
                + closers('>', (types.len() - 1 - k) as nat);
            &&& layer.len() <= text.len()
            &&& text.subrange(text.len() - layer.len(), text.len() as int) == layer
        }),
    decreases types.len(),
{
    let text = merged_type(crate_name, types);
    let core = crate_name + "::MergedObject::<"@ + types[k] + ", "@ + merged_type(crate_name, types.take(k)) + ">"@;
    if k == types.len() - 1 {
        assert(types.drop_last() =~= types.take(k));
        assert(core + closers('>', 0) =~= core);
        assert(text =~= core);
        assert(text.subrange(0, text.len() as int) =~= text);
    } else {
        let init = types.drop_last();
        assert(init[k] == types[k]);
        assert(init.take(k) =~= types.take(k));
        lemma_merged_type_layers(crate_name, init, k);
        let m = merged_type(crate_name, init);
        let t = core + closers('>', (types.len() - 2 - k) as nat);
        let layer = core + closers('>', (types.len() - 1 - k) as nat);
        reveal_strlit(">");
        assert(layer =~= t + ">"@);
        let p = crate_name + "::MergedObject::<"@ + types.last() + ", "@;
        assert(text =~= p + m + ">"@);
        assert(text.subrange(text.len() - layer.len(), text.len() as int) =~= m.subrange(m.len() - t.len(), m.len() as int) + ">"@);
    }
}
} // verus!
