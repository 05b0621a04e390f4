//! Rendering of an execution plan into the GraphQL query text sent to a subgraph.
//!
//! A plan's selection set is written with one tab of indentation per nesting
//! level. Named fragment spreads are written out once per distinct body, as a
//! `fragment` definition appended after the operation, and each distinct body
//! gets the name `<fragment name>_<n>`, where `n` counts the earlier distinct
//! bodies that came from a fragment with the same name. The definitions follow the
//! operation in the order in which their bodies were first met.
use vstd::prelude::*;
use vstd::string::StringExecFns;

use crate::text::{decimal, join, lemma_decimal_digits, lemma_decimal_injective, lemma_join_contains, join_with_separator, push_decimal, push_tabs, string_views, tabs};

verus! {

/// The kind of GraphQL operation.
#[derive(Clone, Copy, Debug, PartialEq, Eq)]
pub enum OperationType {
    Query,
    Mutation,
    Subscription,
}

/// A variable of the operation: its name (without `$`) and its rendered type.
pub struct PlanVariable {
    pub name: String,
    pub ty: String,
}

/// An argument of a field: its name and its rendered value.
pub struct PlanFieldArgument {
    pub name: String,
    pub value: String,
}

/// A field selection.
pub struct PlanField {
    pub response_key: String,
    pub name: String,
    pub arguments: Vec<PlanFieldArgument>,
    pub selection_set: Option<PlanSelectionSet>,
}

/// A spread of a named fragment, with the part of its selection set that this plan needs.
pub struct PlanFragmentSpread {
    pub fragment_name: String,
    pub type_condition_name: String,
    pub selection_set: PlanSelectionSet,
}

/// An inline fragment.
pub struct PlanInlineFragment {
    pub type_condition_name: Option<String>,
    pub selection_set: PlanSelectionSet,
}

/// One item of a selection set.
pub enum PlanSelection {
    Field(PlanField),
    FragmentSpread(PlanFragmentSpread),
    InlineFragment(PlanInlineFragment),
}

/// A selection set together with the name of the type it selects on.
pub struct PlanSelectionSet {
    pub ty_name: String,
    pub requires_typename: bool,
    pub selections: Vec<PlanSelection>,
}

/// What the query text of a plan is made from.
pub struct PlanWalker {
    pub id: usize,
    pub operation_type: OperationType,
    pub variables: Vec<PlanVariable>,
    pub selection_set: PlanSelectionSet,
}

/// Writing to a `String` never fails; the type is kept for callers that propagate it.
#[derive(Debug)]
pub enum Error {
    FmtError,
}

/// A fragment definition that was registered while writing: its body, the name of the
/// fragment it came from, and its number among the bodies from fragments of that name.
pub struct FragmentRecord {
    pub content: Seq<char>,
    pub base: Seq<char>,
    pub id: nat,
}

/// The name under which a fragment body is defined.
pub open spec fn fragment_name(base: Seq<char>, id: nat) -> Seq<char> {
    base + seq!['_'] + decimal(id)
}

pub open spec fn record_name(r: FragmentRecord) -> Seq<char> {
    fragment_name(r.base, r.id)
}

/// How many of the records came from a fragment named `base`.
pub open spec fn count_base(records: Seq<FragmentRecord>, base: Seq<char>) -> nat
    decreases records.len(),
{
    if records.len() == 0 {
        0
    } else {
        count_base(records.drop_last(), base) + if records.last().base == base {
            1nat
        } else {
            0nat
        }
    }
}

/// The index of the first record with the given body.
pub open spec fn find_content(records: Seq<FragmentRecord>, content: Seq<char>) -> Option<int>
    decreases records.len(),
{
    if records.len() == 0 {
        None
    } else {
        match find_content(records.drop_last(), content) {
            Some(i) => Some(i),
            None => if records.last().content == content {
                Some(records.len() - 1)
            } else {
                None
            },
        }
    }
}

/// Registers a fragment body: a body seen before keeps its name; a new body is
/// appended and named after the number of earlier bodies from the same fragment.
/// Returns the records afterwards and the name to spread.
pub open spec fn register(records: Seq<FragmentRecord>, content: Seq<char>, base: Seq<char>) -> (
    Seq<FragmentRecord>,
    Seq<char>,
) {
    match find_content(records, content) {
        Some(i) => (records, record_name(records[i])),
        None => {
            let r = FragmentRecord { content, base, id: count_base(records, base) };
            (records.push(r), record_name(r))
        },
    }
}

/// `name: value` of an argument, `$name: type` of a variable.
pub open spec fn argument_text(a: PlanFieldArgument) -> Seq<char> {
    a.name@ + ": "@ + a.value@
}

pub open spec fn variable_text(v: PlanVariable) -> Seq<char> {
    "$"@ + v.name@ + ": "@ + v.ty@
}

pub open spec fn arguments_texts(args: Seq<PlanFieldArgument>) -> Seq<Seq<char>> {
    args.map_values(|a: PlanFieldArgument| argument_text(a))
}

pub open spec fn variables_texts(vars: Seq<PlanVariable>) -> Seq<Seq<char>> {
    vars.map_values(|v: PlanVariable| variable_text(v))
}

/// The argument list of a field: nothing when it has none, else the arguments in brackets.
pub open spec fn arguments_block(args: Seq<PlanFieldArgument>) -> Seq<char> {
    if args.len() == 0 {
        Seq::empty()
    } else {
        "("@ + join(arguments_texts(args), ", "@) + ")"@
    }
}

/// The line written for `__typename` at the given indentation.
pub open spec fn typename_line(indent: nat) -> Seq<char> {
    tabs(indent) + "__typename\n"@
}

/// The text written for a selection set whose opening brace follows text at
/// indentation `indent`, with the records before and after.
pub open spec fn render_set(records: Seq<FragmentRecord>, ss: PlanSelectionSet, indent: nat) -> (
    Seq<char>,
    Seq<FragmentRecord>,
)
    decreases ss,
{
    let head = if ss.requires_typename {
        typename_line(indent + 1)
    } else {
        Seq::empty()
    };
    let items = render_items(records, ss.selections@, indent + 1);
    let body = head + items.0;
    let filler = if body.len() == 0 {
        typename_line(indent + 1)
    } else {
        Seq::empty()
    };
    (" {\n"@ + body + filler + tabs(indent) + "}\n"@, items.1)
}

/// The text written for a sequence of selections, in order, threading the records.
pub open spec fn render_items(records: Seq<FragmentRecord>, items: Seq<PlanSelection>, indent: nat) -> (
    Seq<char>,
    Seq<FragmentRecord>,
)
    decreases items,
{
    if items.len() == 0 {
        (Seq::empty(), records)
    } else {
        let before = render_items(records, items.drop_last(), indent);
        let last = render_selection(before.1, items.last(), indent);
        (before.0 + last.0, last.1)
    }
}

/// The text written for one selection at indentation `indent`.
pub open spec fn render_selection(records: Seq<FragmentRecord>, sel: PlanSelection, indent: nat) -> (
    Seq<char>,
    Seq<FragmentRecord>,
)
    decreases sel,
{
    match sel {
        PlanSelection::Field(f) => render_field(records, f, indent),
        PlanSelection::FragmentSpread(s) => render_spread(records, s, indent),
        PlanSelection::InlineFragment(i) => render_inline(records, i, indent),
    }
}

/// A field: its response key and name, its arguments, then its selection set or a line break.
pub open spec fn render_field(records: Seq<FragmentRecord>, f: PlanField, indent: nat) -> (
    Seq<char>,
    Seq<FragmentRecord>,
)
    decreases f,
{
    let head = tabs(indent) + field_label(f) + arguments_block(f.arguments@);
    match f.selection_set {
        Some(ss) => {
            let sub = render_set(records, ss, indent);
            (head + sub.0, sub.1)
        },
        None => (head + "\n"@, records),
    }
}

/// `name` when the response key is the field's name, else `key: name`.
pub open spec fn field_label(f: PlanField) -> Seq<char> {
    if f.response_key@ == f.name@ {
        f.name@
    } else {
        f.response_key@ + ": "@ + f.name@
    }
}

/// A named fragment spread: its body is written apart, from indentation 0, and registered;
/// the spread itself is `...name`.
pub open spec fn render_spread(records: Seq<FragmentRecord>, s: PlanFragmentSpread, indent: nat) -> (
    Seq<char>,
    Seq<FragmentRecord>,
)
    decreases s,
{
    let body = render_set(records, s.selection_set, 0);
    let reg = register(body.1, spread_content(s.type_condition_name@, body.0), s.fragment_name@);
    (tabs(indent) + "..."@ + reg.1 + "\n"@, reg.0)
}

/// The body of a fragment definition: its type condition and selection set.
pub open spec fn spread_content(type_condition: Seq<char>, set_text: Seq<char>) -> Seq<char> {
    "on "@ + type_condition + set_text
}

/// An inline fragment: `...`, its optional type condition, then its selection set.
pub open spec fn render_inline(records: Seq<FragmentRecord>, i: PlanInlineFragment, indent: nat) -> (
    Seq<char>,
    Seq<FragmentRecord>,
)
    decreases i,
{
    let cond = match i.type_condition_name {
        Some(n) => " on "@ + n@,
        None => Seq::empty(),
    };
    let sub = render_set(records, i.selection_set, indent);
    (tabs(indent) + "..."@ + cond + sub.0, sub.1)
}

/// How deeply selection sets nest, the set itself counting as one level.
pub open spec fn set_depth(ss: PlanSelectionSet) -> nat
    decreases ss,
{
    1 + items_depth(ss.selections@)
}

pub open spec fn items_depth(items: Seq<PlanSelection>) -> nat
    decreases items,
{
    if items.len() == 0 {
        0
    } else {
        let a = items_depth(items.drop_last());
        let b = selection_depth(items.last());
        if a < b {
            b
        } else {
            a
        }
    }
}

pub open spec fn field_depth(f: PlanField) -> nat
    decreases f,
{
    match f.selection_set {
        Some(ss) => set_depth(ss),
        None => 0,
    }
}

pub open spec fn selection_depth(sel: PlanSelection) -> nat
    decreases sel,
{
    match sel {
        PlanSelection::Field(f) => field_depth(f),
        PlanSelection::FragmentSpread(s) => set_depth(s.selection_set),
        PlanSelection::InlineFragment(i) => set_depth(i.selection_set),
    }
}


proof fn lemma_find_content(records: Seq<FragmentRecord>, content: Seq<char>)
    ensures
        find_content(records, content) is None <==> (forall|j: int|
            0 <= j < records.len() ==> #[trigger] records[j].content != content),
        find_content(records, content) matches Some(i) ==> 0 <= i < records.len()
            && records[i].content == content,
    decreases records.len(),
{
    if records.len() > 0 {
        let init = records.drop_last();
        lemma_find_content(init, content);
        assert forall|j: int| 0 <= j < init.len() implies #[trigger] init[j] == records[j] by {}
        match find_content(init, content) {
            Some(i) => {
                assert(records[i].content == content);
            },
            None => {
                if records.last().content == content {
                    assert(records[records.len() - 1].content == content);
                } else {
                    assert forall|j: int| 0 <= j < records.len() implies #[trigger] records[j].content
                        != content by {
                        if j < init.len() {
                            assert(init[j] == records[j]);
                        }
                    }
                }
            },
        }
    }
}

proof fn lemma_count_base_le(records: Seq<FragmentRecord>, base: Seq<char>)
    ensures
        count_base(records, base) <= records.len(),
    decreases records.len(),
{
    if records.len() > 0 {
        lemma_count_base_le(records.drop_last(), base);
    }
}

proof fn lemma_items_depth(items: Seq<PlanSelection>, i: int)
    requires
        0 <= i < items.len(),
    ensures
        selection_depth(items[i]) <= items_depth(items),
    decreases items.len(),
{
    if i < items.len() - 1 {
        lemma_items_depth(items.drop_last(), i);
    }
}

/// A text buffer with the current indentation level.
pub struct Buffer {
    pub inner: String,
    pub indent: usize,
}

impl Default for Buffer {
    fn default() -> (b: Buffer)
        ensures
            b.inner@ == Seq::<char>::empty(),
            b.indent == 0,
    {
        Buffer { inner: String::new(), indent: 0 }
    }
}

impl Buffer {
    /// Writes `s` after as many tabs as the indentation level.
    pub fn indent_write(&mut self, s: &str) -> (r: Result<(), Error>)
        ensures
            r is Ok,
            final(self).indent == old(self).indent,
            final(self).inner@ == old(self).inner@ + tabs(old(self).indent as nat) + s@,
    {
        push_tabs(&mut self.inner, self.indent);
        self.inner.append(s);
        Ok(())
    }
}

/// Writes selection sets and keeps the fragment definitions met on the way.
pub struct QueryBuilder {
    fragment_content_to_name: Vec<(String, String)>,
    fragment_name_to_last_id: Vec<(String, usize)>,
    records: Ghost<Seq<FragmentRecord>>,
}

impl View for QueryBuilder {
    type V = Seq<FragmentRecord>;

    closed spec fn view(&self) -> Seq<FragmentRecord> {
        self.records@
    }
}

impl Default for QueryBuilder {
    fn default() -> (b: QueryBuilder)
        ensures
            b.wf(),
            b@ == Seq::<FragmentRecord>::empty(),
    {
        QueryBuilder {
            fragment_content_to_name: Vec::new(),
            fragment_name_to_last_id: Vec::new(),
            records: Ghost(Seq::empty()),
        }
    }
}

impl QueryBuilder {
    /// The records are described by the two tables: each body with its name, in order
    /// of first use, and for each fragment name the number of the last body named after it.
    pub closed spec fn wf(&self) -> bool {
        let recs = self.records@;
        let names = self.fragment_content_to_name@;
        let ids = self.fragment_name_to_last_id@;
        &&& names.len() == recs.len()
        &&& forall|i: int|
            0 <= i < recs.len() ==> (#[trigger] names[i]).0@ == recs[i].content && names[i].1@
                == record_name(recs[i])
        &&& forall|i: int|
            0 <= i < recs.len() ==> (#[trigger] recs[i]).id == count_base(recs.take(i), recs[i].base)
        &&& forall|i: int, j: int|
            0 <= i < j < recs.len() ==> (#[trigger] recs[i]).content != (#[trigger] recs[j]).content
        &&& forall|k: int|
            0 <= k < ids.len() ==> count_base(recs, (#[trigger] ids[k]).0@) == ids[k].1 + 1
        &&& forall|k: int, l: int|
            0 <= k < l < ids.len() ==> (#[trigger] ids[k]).0@ != (#[trigger] ids[l]).0@
        &&& forall|b: Seq<char>|
            #[trigger] count_base(recs, b) > 0 ==> exists|k: int|
                0 <= k < ids.len() && (#[trigger] ids[k]).0@ == b
    }

    /// The index of the entry for the given body, if there is one.
    fn position_of_content(&self, content: &String) -> (r: Option<usize>)
        requires
            self.wf(),
        ensures
            r matches Some(i) ==> i < self@.len() && self@[i as int].content == content@,
            r is None ==> forall|j: int| 0 <= j < self@.len() ==> #[trigger] self@[j].content != content@,
    {
        let mut i: usize = 0;
        while i < self.fragment_content_to_name.len()
            invariant
                self.wf(),
                i <= self.fragment_content_to_name@.len(),
                forall|j: int| 0 <= j < i ==> #[trigger] self.records@[j].content != content@,
            decreases self.fragment_content_to_name@.len() - i,
        {
            if self.fragment_content_to_name[i].0 == *content {
                return Some(i);
            }
            i = i + 1;
        }
        None
    }

    /// The index of the entry for the given fragment name, if there is one.
    fn position_of_base(&self, base: &String) -> (r: Option<usize>)
        ensures
            r matches Some(k) ==> k < self.fragment_name_to_last_id@.len()
                && self.fragment_name_to_last_id@[k as int].0@ == base@,
            r is None ==> forall|j: int|
                0 <= j < self.fragment_name_to_last_id@.len() ==> (#[trigger] self.fragment_name_to_last_id@[j]).0@ != base@,
    {
        let mut k: usize = 0;
        while k < self.fragment_name_to_last_id.len()
            invariant
                k <= self.fragment_name_to_last_id@.len(),
                forall|j: int| 0 <= j < k ==> (#[trigger] self.fragment_name_to_last_id@[j]).0@ != base@,
            decreases self.fragment_name_to_last_id@.len() - k,
        {
            if self.fragment_name_to_last_id[k].0 == *base {
                return Some(k);
            }
            k = k + 1;
        }
        None
    }

    /// Gives a fragment body its name, registering it when it is new.
    fn register_fragment(&mut self, content: String, base: &String) -> (name: String)
        requires
            old(self).wf(),
        ensures
            final(self).wf(),
            (final(self)@, name@) == register(old(self)@, content@, base@),
    {
        let ghost recs = self.records@;
        proof {
            lemma_find_content(recs, content@);
        }
        let existing = self.position_of_content(&content);
        match existing {
            Some(i) => {
                proof {
                    match find_content(recs, content@) {
                        Some(f) => {
                            if f != i as int {
                                assert(recs[f].content == recs[i as int].content);
                            }
                        },
                        None => {
                            assert(recs[i as int].content == content@);
                        },
                    }
                }
                return self.fragment_content_to_name[i].1.clone();
            },
            None => {},
        }
        assert(existing is None);
        assert(self@ == recs);
        assert(forall|j: int| 0 <= j < recs.len() ==> #[trigger] recs[j].content != content@);
        assert(find_content(recs, content@) is None);
        let _count = self.fragment_content_to_name.len();
        let position = self.position_of_base(base);
        let found = position.is_some();
        let k: usize = match position {
            Some(k) => k,
            None => 0,
        };
        let ghost old_ids = self.fragment_name_to_last_id@;
        let id: usize;
        if found {
            assert(old_ids[k as int].0@ == base@);
            proof {
                lemma_count_base_le(recs, base@);
            }
            id = self.fragment_name_to_last_id[k].1 + 1;
            let key = self.fragment_name_to_last_id[k].0.clone();
            self.fragment_name_to_last_id.set(k, (key, id));
        } else {
            assert(count_base(recs, base@) == 0) by {
                if count_base(recs, base@) > 0 {
                    let kk = choose|kk: int| 0 <= kk < old_ids.len() && (#[trigger] old_ids[kk]).0@ == base@;
                    assert(old_ids[kk].0@ != base@);
                }
            }
            id = 0;
            self.fragment_name_to_last_id.push((base.clone(), 0));
        }
        proof {
            reveal_strlit("_");
        }
        let mut name = base.clone();
        name.append("_");
        push_decimal(&mut name, id);
        let ghost rec = FragmentRecord { content: content@, base: base@, id: id as nat };
        assert(name@ == record_name(rec));
        self.fragment_content_to_name.push((content, name.clone()));
        self.records = Ghost(recs.push(rec));
        proof {
            let nrecs = recs.push(rec);
            assert(nrecs.drop_last() =~= recs);
            assert forall|b: Seq<char>| #[trigger] count_base(nrecs, b) == count_base(recs, b) + if b == base@ { 1nat } else { 0nat } by {
                assert(nrecs.drop_last() =~= recs);
            }
            assert forall|i: int| 0 <= i < nrecs.len() implies (#[trigger] nrecs[i]).id == count_base(nrecs.take(i), nrecs[i].base) by {
                if i < recs.len() {
                    assert(nrecs.take(i) =~= recs.take(i));
                } else {
                    assert(nrecs.take(i) =~= recs);
                }
            }
            let ids = self.fragment_name_to_last_id@;
            assert forall|kk: int| 0 <= kk < ids.len() implies count_base(nrecs, (#[trigger] ids[kk]).0@) == ids[kk].1 + 1 by {
                if found && kk == k {
                } else if kk < old_ids.len() {
                    assert(ids[kk] == old_ids[kk]);
                }
            }
            assert forall|b: Seq<char>| #[trigger] count_base(nrecs, b) > 0 implies exists|kk: int|
                0 <= kk < ids.len() && (#[trigger] ids[kk]).0@ == b by {
                if b == base@ {
                    if found {
                        assert(ids[k as int].0@ == b);
                    } else {
                        assert(ids[old_ids.len() as int].0@ == b);
                    }
                } else {
                    assert(count_base(recs, b) > 0);
                    let kk = choose|kk: int| 0 <= kk < old_ids.len() && (#[trigger] old_ids[kk]).0@ == b;
                    assert(ids[kk] == old_ids[kk]);
                }
            }
        }
        name
    }
}

proof fn lemma_render_selection_nonempty(records: Seq<FragmentRecord>, sel: PlanSelection, indent: nat)
    ensures
        render_selection(records, sel, indent).0.len() > 0,
{
    reveal_strlit("\n");
    reveal_strlit(" {\n");
    reveal_strlit("...");
    match sel {
        PlanSelection::Field(f) => {
            match f.selection_set {
                Some(ss) => {
                    let sub = render_set(records, ss, indent);
                    assert(sub.0.len() > 0);
                },
                None => {},
            }
        },
        PlanSelection::FragmentSpread(s) => {},
        PlanSelection::InlineFragment(i) => {},
    }
}

proof fn lemma_render_items_nonempty(records: Seq<FragmentRecord>, items: Seq<PlanSelection>, indent: nat)
    requires
        items.len() > 0,
    ensures
        render_items(records, items, indent).0.len() > 0,
{
    let before = render_items(records, items.drop_last(), indent);
    lemma_render_selection_nonempty(before.1, items.last(), indent);
}

/// The keyword that starts an operation of the given kind.
pub open spec fn operation_keyword(ty: OperationType) -> Seq<char> {
    match ty {
        OperationType::Query => "query"@,
        OperationType::Mutation => "mutation"@,
        OperationType::Subscription => "subscription"@,
    }
}

/// `fragment <name> <body>` for a registered fragment.
pub open spec fn fragment_definition(r: FragmentRecord) -> Seq<char> {
    "fragment "@ + record_name(r) + " "@ + r.content
}

pub open spec fn fragment_definitions(records: Seq<FragmentRecord>) -> Seq<Seq<char>> {
    records.map_values(|r: FragmentRecord| fragment_definition(r))
}

/// What follows an operation: a line break, then the fragment definitions, one per line.
pub open spec fn fragment_section(records: Seq<FragmentRecord>) -> Seq<char> {
    "\n"@ + join(fragment_definitions(records), "\n"@)
}

impl QueryBuilder {
    /// Writes the variables of an operation as `$name: type`, separated by `, `.
    pub fn write_operation_arguments_without_parenthesis(&self, variables: &Vec<PlanVariable>, out: &mut String)
        ensures
            final(out)@ == old(out)@ + join(variables_texts(variables@), ", "@),
    {
        let mut parts: Vec<String> = Vec::new();
        let mut i: usize = 0;
        while i < variables.len()
            invariant
                i <= variables@.len(),
                parts@.len() == i,
                forall|j: int| 0 <= j < i ==> (#[trigger] parts@[j])@ == variable_text(variables@[j]),
            decreases variables@.len() - i,
        {
            let mut part = String::from_str("$");
            part.append(variables[i].name.as_str());
            part.append(": ");
            part.append(variables[i].ty.as_str());
            parts.push(part);
            i = i + 1;
        }
        assert(string_views(parts@) =~= variables_texts(variables@));
        let joined = join_with_separator(&parts, ", ");
        out.append(joined.as_str());
    }

    /// Writes, after a line break, a definition for each registered fragment, one per line.
    pub fn write_fragments(&self, out: &mut String)
        requires
            self.wf(),
        ensures
            final(out)@ == old(out)@ + fragment_section(self@),
    {
        let mut parts: Vec<String> = Vec::new();
        let mut i: usize = 0;
        while i < self.fragment_content_to_name.len()
            invariant
                self.wf(),
                i <= self@.len(),
                parts@.len() == i,
                forall|j: int| 0 <= j < i ==> (#[trigger] parts@[j])@ == fragment_definition(self@[j]),
            decreases self@.len() - i,
        {
            let mut part = String::from_str("fragment ");
            part.append(self.fragment_content_to_name[i].1.as_str());
            part.append(" ");
            part.append(self.fragment_content_to_name[i].0.as_str());
            parts.push(part);
            i = i + 1;
        }
        assert(string_views(parts@) =~= fragment_definitions(self@));
        let joined = join_with_separator(&parts, "\n");
        out.append("\n");
        out.append(joined.as_str());
    }

    /// Writes a selection set: its opening brace, its items one level deeper, and its
    /// closing brace at the current level. A set with nothing to write gets `__typename`.
    pub fn write_selection_set(&mut self, buffer: &mut Buffer, selection_set: &PlanSelectionSet) -> (r: Result<(), Error>)
        requires
            old(self).wf(),
            old(buffer).indent + set_depth(*selection_set) <= usize::MAX,
        ensures
            r is Ok,
            final(self).wf(),
            final(buffer).indent == old(buffer).indent,
            final(buffer).inner@ == old(buffer).inner@ + render_set(old(self)@, *selection_set, old(buffer).indent as nat).0,
            final(self)@ == render_set(old(self)@, *selection_set, old(buffer).indent as nat).1,
        decreases *selection_set,
    {
        let ghost b0 = buffer.inner@;
        let ghost r0 = self@;
        let ghost ind = buffer.indent as nat;
        let ghost items = selection_set.selections@;
        buffer.inner.append(" {\n");
        buffer.indent = buffer.indent + 1;
        if selection_set.requires_typename {
            buffer.indent_write("__typename\n")?;
        }
        let ghost head = if selection_set.requires_typename { typename_line(ind + 1) } else { Seq::<char>::empty() };
        assert(buffer.inner@ == b0 + " {\n"@ + head);
        let n = selection_set.selections.len();
        let mut i: usize = 0;
        assert(items.take(0) =~= Seq::<PlanSelection>::empty());
        while i < n
            invariant
                self.wf(),
                buffer.indent == ind + 1,
                n == items.len(),
                items == selection_set.selections@,
                i <= n,
                ind + set_depth(*selection_set) <= usize::MAX,
                buffer.inner@ == b0 + " {\n"@ + head + render_items(r0, items.take(i as int), ind + 1).0,
                self@ == render_items(r0, items.take(i as int), ind + 1).1,
            decreases n - i,
        {
            proof {
                lemma_items_depth(items, i as int);
            }
            let ghost before = buffer.inner@;
            let ghost recs = self@;
            match &selection_set.selections[i] {
                PlanSelection::Field(field) => self.write_field(buffer, field)?,
                PlanSelection::FragmentSpread(spread) => self.write_fragment_spread(buffer, spread)?,
                PlanSelection::InlineFragment(fragment) => self.write_inline_fragment(buffer, fragment)?,
            };
            proof {
                assert(items.take(i + 1).drop_last() =~= items.take(i as int));
                assert(items.take(i + 1).last() == items[i as int]);
                let step = render_selection(recs, items[i as int], ind + 1);
                assert(buffer.inner@ == before + step.0);
                assert(self@ == step.1);
            }
            i = i + 1;
        }
        assert(items.take(n as int) =~= items);
        proof {
            reveal_strlit("__typename\n");
            if n > 0 {
                lemma_render_items_nonempty(r0, items, ind + 1);
            }
        }
        if !selection_set.requires_typename && n == 0 {
            buffer.indent_write("__typename\n")?;
        }
        buffer.indent = buffer.indent - 1;
        buffer.indent_write("}\n")?;
        Ok(())
    }

    /// Writes a field: `name` or `key: name` at the current indentation, its arguments,
    /// then its selection set or a line break.
    pub fn write_field(&mut self, buffer: &mut Buffer, field: &PlanField) -> (r: Result<(), Error>)
        requires
            old(self).wf(),
            old(buffer).indent + field_depth(*field) <= usize::MAX,
        ensures
            r is Ok,
            final(self).wf(),
            final(buffer).indent == old(buffer).indent,
            final(buffer).inner@ == old(buffer).inner@ + render_field(old(self)@, *field, old(buffer).indent as nat).0,
            final(self)@ == render_field(old(self)@, *field, old(buffer).indent as nat).1,
        decreases *field,
    {
        let ghost b0 = buffer.inner@;
        if field.response_key == field.name {
            buffer.indent_write(field.name.as_str())?;
        } else {
            let mut label = field.response_key.clone();
            label.append(": ");
            label.append(field.name.as_str());
            buffer.indent_write(label.as_str())?;
        }
        self.write_arguments(buffer, &field.arguments)?;
        match &field.selection_set {
            Some(selection_set) => self.write_selection_set(buffer, selection_set)?,
            None => buffer.inner.append("\n"),
        }
        Ok(())
    }

    /// Writes the arguments of a field in brackets, nothing when it has none.
    pub fn write_arguments(&mut self, buffer: &mut Buffer, arguments: &Vec<PlanFieldArgument>) -> (r: Result<(), Error>)
        ensures
            r is Ok,
            *final(self) == *old(self),
            final(buffer).indent == old(buffer).indent,
            final(buffer).inner@ == old(buffer).inner@ + arguments_block(arguments@),
    {
        if arguments.len() != 0 {
            let mut parts: Vec<String> = Vec::new();
            let mut i: usize = 0;
            while i < arguments.len()
                invariant
                    i <= arguments@.len(),
                    parts@.len() == i,
                    forall|j: int| 0 <= j < i ==> (#[trigger] parts@[j])@ == argument_text(arguments@[j]),
                decreases arguments@.len() - i,
            {
                let mut part = arguments[i].name.clone();
                part.append(": ");
                part.append(arguments[i].value.as_str());
                parts.push(part);
                i = i + 1;
            }
            assert(string_views(parts@) =~= arguments_texts(arguments@));
            let joined = join_with_separator(&parts, ", ");
            buffer.inner.append("(");
            buffer.inner.append(joined.as_str());
            buffer.inner.append(")");
        }
        Ok(())
    }

    /// Writes a named fragment spread: the body is written into a buffer of its own,
    /// registered, and the spread refers to it by name.
    pub fn write_fragment_spread(&mut self, buffer: &mut Buffer, spread: &PlanFragmentSpread) -> (r: Result<(), Error>)
        requires
            old(self).wf(),
            set_depth(spread.selection_set) <= usize::MAX,
        ensures
            r is Ok,
            final(self).wf(),
            final(buffer).indent == old(buffer).indent,
            final(buffer).inner@ == old(buffer).inner@ + render_spread(old(self)@, *spread, old(buffer).indent as nat).0,
            final(self)@ == render_spread(old(self)@, *spread, old(buffer).indent as nat).1,
        decreases *spread,
    {
        let mut fragment_buffer = Buffer::default();
        fragment_buffer.inner.append("on ");
        fragment_buffer.inner.append(spread.type_condition_name.as_str());
        self.write_selection_set(&mut fragment_buffer, &spread.selection_set)?;
        let name = self.register_fragment(fragment_buffer.inner, &spread.fragment_name);
        let mut line = String::from_str("...");
        line.append(name.as_str());
        line.append("\n");
        buffer.indent_write(line.as_str())?;
        Ok(())
    }

    /// Writes an inline fragment: `...`, its type condition if it has one, then its selection set.
    pub fn write_inline_fragment(&mut self, buffer: &mut Buffer, fragment: &PlanInlineFragment) -> (r: Result<(), Error>)
        requires
            old(self).wf(),
            old(buffer).indent + set_depth(fragment.selection_set) <= usize::MAX,
        ensures
            r is Ok,
            final(self).wf(),
            final(buffer).indent == old(buffer).indent,
            final(buffer).inner@ == old(buffer).inner@ + render_inline(old(self)@, *fragment, old(buffer).indent as nat).0,
            final(self)@ == render_inline(old(self)@, *fragment, old(buffer).indent as nat).1,
        decreases *fragment,
    {
        buffer.indent_write("...")?;
        match &fragment.type_condition_name {
            Some(name) => {
                buffer.inner.append(" on ");
                buffer.inner.append(name.as_str());
            },
            None => {},
        }
        self.write_selection_set(buffer, &fragment.selection_set)?;
        Ok(())
    }
}

/// The variables of an operation in brackets, nothing when it has none.
pub open spec fn variables_block(vars: Seq<PlanVariable>) -> Seq<char> {
    if vars.len() == 0 {
        Seq::empty()
    } else {
        "("@ + join(variables_texts(vars), ", "@) + ")"@
    }
}

/// The query text of a plan sent as an operation of its own: the operation keyword,
/// the variables, the selection set, then the fragment definitions it needs.
pub open spec fn graphql_operation_text(plan: PlanWalker) -> Seq<char> {
    let sel = render_set(Seq::empty(), plan.selection_set, 0);
    operation_keyword(plan.operation_type) + variables_block(plan.variables@) + sel.0 + fragment_section(sel.1)
}

/// The name of the variable that carries the entity representations of a plan.
pub open spec fn entities_variable_name(plan_id: nat) -> Seq<char> {
    "representationsPlan"@ + decimal(plan_id)
}

/// The query text of a plan sent as an `_entities` lookup.
pub open spec fn federation_entity_text(plan: PlanWalker) -> Seq<char> {
    let sel = render_set(Seq::empty(), plan.selection_set, 2);
    let var = entities_variable_name(plan.id as nat);
    let extra = if plan.variables@.len() == 0 {
        Seq::empty()
    } else {
        ","@ + join(variables_texts(plan.variables@), ", "@)
    };
    "query"@ + "("@ + "$"@ + var + ": [_Any!]!"@ + extra + ")"@ + " {"@
        + "\n\t_entities(representations: $"@ + var + ") {"@ + "\n\t\t__typename"@
        + "\n\t\t... on "@ + plan.selection_set.ty_name@ + " "@ + sel.0 + "\t}"@ + "\n}\n"@
        + fragment_section(sel.1)
}

/// A plan's query, sent as an operation of its own.
pub struct PreparedGraphqlOperation {
    pub query: String,
}

impl PreparedGraphqlOperation {
    pub fn build(plan: PlanWalker) -> (r: Result<PreparedGraphqlOperation, Error>)
        requires
            set_depth(plan.selection_set) <= usize::MAX,
        ensures
            r matches Ok(op) && op.query@ == graphql_operation_text(plan),
    {
        let mut builder = QueryBuilder::default();
        let selection_set = {
            let mut buffer = Buffer::default();
            builder.write_selection_set(&mut buffer, &plan.selection_set)?;
            buffer.inner
        };
        let mut query = match plan.operation_type {
            OperationType::Query => String::from_str("query"),
            OperationType::Mutation => String::from_str("mutation"),
            OperationType::Subscription => String::from_str("subscription"),
        };
        if plan.variables.len() != 0 {
            query.append("(");
            builder.write_operation_arguments_without_parenthesis(&plan.variables, &mut query);
            query.append(")");
        }
        query.append(selection_set.as_str());
        builder.write_fragments(&mut query);
        Ok(PreparedGraphqlOperation { query })
    }
}

/// A plan's query, sent as an `_entities` lookup, with the name of the variable that
/// carries the representations.
pub struct PreparedFederationEntityOperation {
    pub query: String,
    pub entities_variable: String,
}

impl PreparedFederationEntityOperation {
    pub fn build(plan: PlanWalker) -> (r: Result<PreparedFederationEntityOperation, Error>)
        requires
            2 + set_depth(plan.selection_set) <= usize::MAX,
        ensures
            r matches Ok(op) && op.query@ == federation_entity_text(plan)
                && op.entities_variable@ == entities_variable_name(plan.id as nat),
    {
        let mut builder = QueryBuilder::default();
        let mut query = String::from_str("query");
        let selection_set = {
            let mut buffer = Buffer::default();
            buffer.indent = buffer.indent + 2;
            builder.write_selection_set(&mut buffer, &plan.selection_set)?;
            buffer.inner
        };
        query.append("(");
        let mut entities_variable_name = String::from_str("representationsPlan");
        push_decimal(&mut entities_variable_name, plan.id);
        query.append("$");
        query.append(entities_variable_name.as_str());
        query.append(": [_Any!]!");
        if plan.variables.len() != 0 {
            query.append(",");
            builder.write_operation_arguments_without_parenthesis(&plan.variables, &mut query);
        }
        query.append(")");
        query.append(" {");
        query.append("\n\t_entities(representations: $");
        query.append(entities_variable_name.as_str());
        query.append(") {");
        query.append("\n\t\t__typename");
        query.append("\n\t\t... on ");
        query.append(plan.selection_set.ty_name.as_str());
        query.append(" ");
        query.append(selection_set.as_str());
        query.append("\t}");
        query.append("\n}\n");
        builder.write_fragments(&mut query);
        Ok(PreparedFederationEntityOperation { query, entities_variable: entities_variable_name })
    }
}

/// A fragment name determines the fragment it came from and its number.
pub proof fn lemma_fragment_name_injective(b1: Seq<char>, k1: nat, b2: Seq<char>, k2: nat)
    requires
        fragment_name(b1, k1) == fragment_name(b2, k2),
    ensures
        b1 == b2,
        k1 == k2,
{
    let d1 = decimal(k1);
    let d2 = decimal(k2);
    lemma_decimal_digits(k1);
    lemma_decimal_digits(k2);
    let s1 = fragment_name(b1, k1);
    let s2 = fragment_name(b2, k2);
    assert(s1.len() == b1.len() + 1 + d1.len());
    assert(s2.len() == b2.len() + 1 + d2.len());
    if d1.len() < d2.len() {
        let p = b1.len() as int;
        assert(s1[p] == '_');
        assert(s2[p] == d2[p - b2.len() - 1]);
    } else if d2.len() < d1.len() {
        let p = b2.len() as int;
        assert(s2[p] == '_');
        assert(s1[p] == d1[p - b1.len() - 1]);
    } else {
        assert(b1 =~= s1.subrange(0, b1.len() as int));
        assert(b2 =~= s2.subrange(0, b2.len() as int));
        assert(d1 =~= s1.subrange(b1.len() as int + 1, s1.len() as int));
        assert(d2 =~= s2.subrange(b2.len() as int + 1, s2.len() as int));
        lemma_decimal_injective(k1, k2);
    }
}

proof fn lemma_count_base_take(records: Seq<FragmentRecord>, base: Seq<char>, m: int, n: int)
    requires
        0 <= m <= n <= records.len(),
    ensures
        count_base(records.take(m), base) <= count_base(records.take(n), base),
        m < n && records[m].base == base ==> count_base(records.take(m), base) < count_base(records.take(n), base),
    decreases n - m,
{
    if m < n {
        lemma_count_base_take(records, base, m, n - 1);
        assert(records.take(n).drop_last() =~= records.take(n - 1));
        if m == n - 1 {
            assert(records.take(n).last() == records[m]);
        }
    }
}

/// Every fragment body a builder registered is defined once, under a name of its own, and
/// the bodies that came from a fragment named `f` are named `f_0`, `f_1`, ... in the order
/// in which they were first met.
pub proof fn lemma_fragments_distinct(builder: QueryBuilder)
    requires
        builder.wf(),
    ensures
        forall|i: int, j: int|
            0 <= i < j < builder@.len() ==> (#[trigger] builder@[i]).content != (#[trigger] builder@[j]).content
                && record_name(builder@[i]) != record_name(builder@[j]),
        forall|i: int|
            0 <= i < builder@.len() ==> (#[trigger] builder@[i]).id == count_base(builder@.take(i), builder@[i].base),
{
    let recs = builder@;
    assert forall|i: int, j: int| 0 <= i < j < recs.len() implies (#[trigger] recs[i]).content
        != (#[trigger] recs[j]).content && record_name(recs[i]) != record_name(recs[j]) by {
        if record_name(recs[i]) == record_name(recs[j]) {
            lemma_fragment_name_injective(recs[i].base, recs[i].id, recs[j].base, recs[j].id);
            lemma_count_base_take(recs, recs[i].base, i, j);
            assert(recs.take(i + 1).drop_last() =~= recs.take(i));
            lemma_count_base_take(recs, recs[i].base, i + 1, j);
        }
    }
}

/// `b` holds the elements of `a` at the same places, and possibly more after them.
pub open spec fn extends<T>(a: Seq<T>, b: Seq<T>) -> bool {
    a.len() <= b.len() && forall|i: int| 0 <= i < a.len() ==> #[trigger] b[i] == a[i]
}

/// Registering a body yields a name under which the body is registered afterwards, and
/// keeps every earlier registration.
pub proof fn lemma_register_defines(records: Seq<FragmentRecord>, content: Seq<char>, base: Seq<char>)
    ensures
        extends(records, register(records, content, base).0),
        exists|i: int|
            0 <= i < register(records, content, base).0.len()
                && (#[trigger] register(records, content, base).0[i]).content == content
                && record_name(register(records, content, base).0[i]) == register(records, content, base).1,
{
    lemma_find_content(records, content);
    let reg = register(records, content, base);
    match find_content(records, content) {
        Some(i) => {
            assert(reg.0[i].content == content);
        },
        None => {
            assert(reg.0[records.len() as int].content == content);
        },
    }
}

/// Registering a body that is already registered changes nothing and gives the same name,
/// whichever fragment the body comes from this time.
pub proof fn lemma_register_idempotent(records: Seq<FragmentRecord>, content: Seq<char>, base: Seq<char>, other_base: Seq<char>)
    ensures
        register(register(records, content, base).0, content, other_base) == register(records, content, base),
{
    lemma_find_content(records, content);
    let reg = register(records, content, base);
    lemma_find_content(reg.0, content);
    match find_content(records, content) {
        Some(i) => {},
        None => {
            let n = records.len() as int;
            assert(reg.0.drop_last() =~= records);
            lemma_find_content(reg.0.drop_last(), content);
            assert(find_content(reg.0, content) == Some(n));
        },
    }
}

/// Writing a selection set only adds fragment registrations after the existing ones.
pub proof fn lemma_render_set_extends(records: Seq<FragmentRecord>, ss: PlanSelectionSet, indent: nat)
    ensures
        extends(records, render_set(records, ss, indent).1),
    decreases ss,
{
    lemma_render_items_extends(records, ss.selections@, indent + 1);
}

pub proof fn lemma_render_items_extends(records: Seq<FragmentRecord>, items: Seq<PlanSelection>, indent: nat)
    ensures
        extends(records, render_items(records, items, indent).1),
    decreases items,
{
    if items.len() > 0 {
        lemma_render_items_extends(records, items.drop_last(), indent);
        let before = render_items(records, items.drop_last(), indent);
        lemma_render_selection_extends(before.1, items.last(), indent);
    }
}

pub proof fn lemma_render_selection_extends(records: Seq<FragmentRecord>, sel: PlanSelection, indent: nat)
    ensures
        extends(records, render_selection(records, sel, indent).1),
    decreases sel,
{
    match sel {
        PlanSelection::Field(f) => {
            match f.selection_set {
                Some(ss) => lemma_render_set_extends(records, ss, indent),
                None => {},
            }
        },
        PlanSelection::FragmentSpread(s) => {
            lemma_render_set_extends(records, s.selection_set, 0);
            let body = render_set(records, s.selection_set, 0);
            lemma_register_defines(body.1, spread_content(s.type_condition_name@, body.0), s.fragment_name@);
        },
        PlanSelection::InlineFragment(i) => lemma_render_set_extends(records, i.selection_set, indent),
    }
}

/// A fragment spread is written as `...name`, where `name` is registered afterwards for the
/// spread's body; so every spread refers to a fragment that the fragment section defines.
pub proof fn lemma_spread_refers_to_definition(records: Seq<FragmentRecord>, s: PlanFragmentSpread, indent: nat)
    ensures
        ({
            let out = render_spread(records, s, indent);
            let body = render_set(records, s.selection_set, 0);
            exists|i: int|
                0 <= i < out.1.len() && (#[trigger] out.1[i]).content == spread_content(s.type_condition_name@, body.0)
                    && out.0 == tabs(indent) + "..."@ + record_name(out.1[i]) + "\n"@
        }),
{
    let body = render_set(records, s.selection_set, 0);
    let c = spread_content(s.type_condition_name@, body.0);
    lemma_register_defines(body.1, c, s.fragment_name@);
    let reg = register(body.1, c, s.fragment_name@);
    let i = choose|i: int| 0 <= i < reg.0.len() && (#[trigger] reg.0[i]).content == c && record_name(reg.0[i]) == reg.1;
    let out = render_spread(records, s, indent);
    assert(out.1 == reg.0);
    assert(out.0 == tabs(indent) + "..."@ + record_name(out.1[i]) + "\n"@);
}

/// A selection set is never written empty: between its braces there is always at least one
/// line, `__typename` when nothing else is selected.
pub proof fn lemma_selection_set_never_empty(records: Seq<FragmentRecord>, ss: PlanSelectionSet, indent: nat)
    ensures
        exists|body: Seq<char>|
            body.len() > 0 && #[trigger] render_set(records, ss, indent).0 == " {\n"@ + body + tabs(indent) + "}\n"@,
{
    reveal_strlit("__typename\n");
    let head = if ss.requires_typename {
        typename_line(indent + 1)
    } else {
        Seq::empty()
    };
    let items = render_items(records, ss.selections@, indent + 1);
    let body = head + items.0;
    let filler = if body.len() == 0 {
        typename_line(indent + 1)
    } else {
        Seq::empty()
    };
    let all = body + filler;
    assert(render_set(records, ss, indent).0 =~= " {\n"@ + all + tabs(indent) + "}\n"@);
    assert(all.len() > 0);
}

/// Whether the spread `s` occurs in the selection set, at any depth: directly, under a
/// field, inside an inline fragment or inside the body of another spread.
pub open spec fn set_spreads(ss: PlanSelectionSet, s: PlanFragmentSpread) -> bool
    decreases ss,
{
    items_spread(ss.selections@, s)
}

pub open spec fn items_spread(items: Seq<PlanSelection>, s: PlanFragmentSpread) -> bool
    decreases items,
{
    items.len() > 0 && (items_spread(items.drop_last(), s) || selection_spreads(items.last(), s))
}

pub open spec fn selection_spreads(sel: PlanSelection, s: PlanFragmentSpread) -> bool
    decreases sel,
{
    match sel {
        PlanSelection::Field(f) => match f.selection_set {
            Some(ss) => set_spreads(ss, s),
            None => false,
        },
        PlanSelection::FragmentSpread(sp) => sp == s || set_spreads(sp.selection_set, s),
        PlanSelection::InlineFragment(i) => set_spreads(i.selection_set, s),
    }
}

/// Whether the records hold a definition for the spread `s`: a body `on <type condition>`
/// followed by the spread's selection set, as written at the start of a line.
pub open spec fn defines_spread(records: Seq<FragmentRecord>, s: PlanFragmentSpread) -> bool {
    exists|i: int, r0: Seq<FragmentRecord>|
        #![trigger records[i], render_set(r0, s.selection_set, 0)]
        0 <= i < records.len() && records[i].content == "on "@ + s.type_condition_name@
            + render_set(r0, s.selection_set, 0).0
}

proof fn lemma_defines_kept(a: Seq<FragmentRecord>, b: Seq<FragmentRecord>, s: PlanFragmentSpread)
    requires
        extends(a, b),
        defines_spread(a, s),
    ensures
        defines_spread(b, s),
{
    let (i, r0) = choose|i: int, r0: Seq<FragmentRecord>|
        #![trigger a[i], render_set(r0, s.selection_set, 0)]
        0 <= i < a.len() && a[i].content == "on "@ + s.type_condition_name@ + render_set(r0, s.selection_set, 0).0;
    assert(b[i] == a[i]);
    assert(0 <= i < b.len() && b[i].content == "on "@ + s.type_condition_name@ + render_set(r0, s.selection_set, 0).0);
}

/// Every fragment spread that occurs in a selection set, at any depth, has a definition
/// among the records once the set is written: so each `...name` of the query is defined in
/// its fragment section.
pub proof fn lemma_set_defines_its_spreads(records: Seq<FragmentRecord>, ss: PlanSelectionSet, indent: nat, s: PlanFragmentSpread)
    requires
        set_spreads(ss, s),
    ensures
        defines_spread(render_set(records, ss, indent).1, s),
    decreases ss,
{
    lemma_items_define_their_spreads(records, ss.selections@, indent + 1, s);
}

pub proof fn lemma_items_define_their_spreads(records: Seq<FragmentRecord>, items: Seq<PlanSelection>, indent: nat, s: PlanFragmentSpread)
    requires
        items_spread(items, s),
    ensures
        defines_spread(render_items(records, items, indent).1, s),
    decreases items,
{
    let before = render_items(records, items.drop_last(), indent);
    let after = render_selection(before.1, items.last(), indent);
    if items_spread(items.drop_last(), s) {
        lemma_items_define_their_spreads(records, items.drop_last(), indent, s);
        lemma_render_selection_extends(before.1, items.last(), indent);
        lemma_defines_kept(before.1, after.1, s);
    } else {
        lemma_selection_defines_its_spreads(before.1, items.last(), indent, s);
    }
}

pub proof fn lemma_selection_defines_its_spreads(records: Seq<FragmentRecord>, sel: PlanSelection, indent: nat, s: PlanFragmentSpread)
    requires
        selection_spreads(sel, s),
    ensures
        defines_spread(render_selection(records, sel, indent).1, s),
    decreases sel,
{
    match sel {
        PlanSelection::Field(f) => {
            match f.selection_set {
                Some(ss) => lemma_set_defines_its_spreads(records, ss, indent, s),
                None => {},
            }
        },
        PlanSelection::FragmentSpread(sp) => {
            let body = render_set(records, sp.selection_set, 0);
            let c = spread_content(sp.type_condition_name@, body.0);
            lemma_register_defines(body.1, c, sp.fragment_name@);
            let reg = register(body.1, c, sp.fragment_name@);
            if sp == s {
                let i = choose|i: int| 0 <= i < reg.0.len() && (#[trigger] reg.0[i]).content == c && record_name(reg.0[i]) == reg.1;
                assert(reg.0[i].content == "on "@ + s.type_condition_name@ + render_set(records, s.selection_set, 0).0);
            } else {
                lemma_set_defines_its_spreads(records, sp.selection_set, 0, s);
                lemma_defines_kept(body.1, reg.0, s);
            }
        },
        PlanSelection::InlineFragment(i) => lemma_set_defines_its_spreads(records, i.selection_set, indent, s),
    }
}

/// A field is written as its label at the current indentation, then its arguments: the
/// label is `key: name` exactly when the response key differs from the name, whatever the
/// field's arguments and selection set; a field without a selection set ends its line.
/// The fragments registered while writing its selection set are kept.
pub proof fn lemma_field_text(records: Seq<FragmentRecord>, f: PlanField, indent: nat)
    ensures
        ({
            let text = render_field(records, f, indent).0;
            let prefix = tabs(indent) + (if f.response_key@ == f.name@ {
                f.name@
            } else {
                f.response_key@ + ": "@ + f.name@
            }) + (if f.arguments@.len() == 0 {
                Seq::empty()
            } else {
                "("@ + join(f.arguments@.map_values(|a: PlanFieldArgument| a.name@ + ": "@ + a.value@), ", "@) + ")"@
            });
            &&& prefix.len() <= text.len()
            &&& text.subrange(0, prefix.len() as int) == prefix
            &&& f.selection_set is None ==> text == prefix + "\n"@
        }),
        render_field(records, f, indent).1 == match f.selection_set {
            Some(ss) => render_set(records, ss, indent).1,
            None => records,
        },
{
    let rest = match f.selection_set {
        Some(ss) => render_set(records, ss, indent).0,
        None => "\n"@,
    };
    let prefix = tabs(indent) + (if f.response_key@ == f.name@ {
        f.name@
    } else {
        f.response_key@ + ": "@ + f.name@
    }) + (if f.arguments@.len() == 0 {
        Seq::empty()
    } else {
        "("@ + join(f.arguments@.map_values(|a: PlanFieldArgument| a.name@ + ": "@ + a.value@), ", "@) + ")"@
    });
    assert(arguments_texts(f.arguments@) =~= f.arguments@.map_values(|a: PlanFieldArgument| a.name@ + ": "@ + a.value@));
    let text = render_field(records, f, indent).0;
    assert(text =~= prefix + rest);
    assert(text.subrange(0, prefix.len() as int) =~= prefix);
}

/// An inline fragment is written as `...`, ` on <type>` when it has a type condition, and
/// its selection set at the same indentation; the fragments registered while writing the
/// selection set are kept.
pub proof fn lemma_inline_text(records: Seq<FragmentRecord>, i: PlanInlineFragment, indent: nat)
    ensures
        render_inline(records, i, indent).0 == tabs(indent) + "..."@ + (match i.type_condition_name {
            Some(n) => " on "@ + n@,
            None => Seq::empty(),
        }) + render_set(records, i.selection_set, indent).0,
        render_inline(records, i, indent).1 == render_set(records, i.selection_set, indent).1,
{
}

/// The fragment section defines every registered fragment on a line of its own: a line
/// break, then `fragment`, the fragment's name and its body.
pub proof fn lemma_fragment_section_defines_all(records: Seq<FragmentRecord>, i: int)
    requires
        0 <= i < records.len(),
    ensures
        ({
            let text = fragment_section(records);
            let line = "\n"@ + "fragment "@ + record_name(records[i]) + " "@ + records[i].content;
            exists|p: int|
                0 <= p && p + line.len() <= text.len() && #[trigger] text.subrange(p, p + line.len()) == line
        }),
{
    reveal_strlit("\n");
    let parts = fragment_definitions(records);
    let sep = "\n"@;
    lemma_join_contains(parts, sep, i);
    let joined = join(parts, sep);
    let d = parts[i];
    let q = choose|q: int|
        0 <= q && q + parts[i].len() <= joined.len()
            && #[trigger] joined.subrange(q, q + parts[i].len()) == parts[i]
            && (i == 0 ==> q == 0)
            && (i > 0 ==> q >= sep.len() && joined.subrange(q - sep.len(), q) == sep);
    let text = fragment_section(records);
    let line = "\n"@ + "fragment "@ + record_name(records[i]) + " "@ + records[i].content;
    assert(d == fragment_definition(records[i]));
    assert(line =~= sep + d);
    assert(text =~= sep + joined);
    let p = q;
    assert(text.subrange(p + 1, p + 1 + d.len()) =~= joined.subrange(q, q + d.len()));
    if i == 0 {
        assert(text.subrange(p, p + 1) =~= sep);
    } else {
        assert(text.subrange(p, p + 1) =~= joined.subrange(q - 1, q));
    }
    assert(text.subrange(p, p + line.len()) =~= text.subrange(p, p + 1) + text.subrange(p + 1, p + 1 + d.len()));
}
} // verus!
