//! Anchor-aware editing of a secrets registry document.
//!
//! The document is a list of lines with two blocks, each introduced by a
//! sentinel line: a definition block of `- &name value` entries and a
//! reference block of `- *name` entries. The editor updates or inserts one
//! anchor definition together with its alias, and touches no other line.

use vstd::prelude::*;
use crate::text::{
    doc_view, starts_with_seq, trim_seq, trim_start_seq, trim_equals, trim_start_starts_with,
    trims_equal,
};

verus! {

/// Spaces before a definition entry line.
pub const DEFINITION_INDENT: usize = 4;

/// Spaces before a reference entry line: the reference block is nested
/// deeper in the document than the definition block.
pub const REFERENCE_INDENT: usize = 10;

#[derive(Debug, Clone, Copy, PartialEq, Eq, Structural)]
pub enum UpsertOutcome {
    /// An existing definition got the new value.
    Updated,
    /// A new definition and its alias were added.
    Inserted,
    /// The definition already held the value; nothing changed.
    Unchanged,
}

#[derive(Debug, Clone, Copy, PartialEq, Eq, Structural)]
pub enum DefinitionUpdate {
    /// No line defines the anchor.
    Absent,
    /// The defining line already held the value.
    Unchanged,
    /// The defining line was replaced.
    Replaced,
}

/// Why the document was left as it was.
#[derive(Debug, Clone, Copy, PartialEq, Eq, Structural)]
pub enum RegistryError {
    /// No line is the definition block's sentinel.
    MissingDefinitionBlock,
    /// No line is the reference block's sentinel.
    MissingReferenceBlock,
    /// The definition block already lists the definition line.
    DuplicateDefinition,
    /// The reference block already lists the alias line.
    DuplicateReference,
}

impl RegistryError {
    pub fn message(&self) -> (r: String)
        ensures
            r@ == match *self {
                RegistryError::MissingDefinitionBlock => "registry document has no definition block"@,
                RegistryError::MissingReferenceBlock => "registry document has no reference block"@,
                RegistryError::DuplicateDefinition => "definition block already lists the key"@,
                RegistryError::DuplicateReference => "reference block already lists the key"@,
            },
    {
        match self {
            RegistryError::MissingDefinitionBlock => String::from_str(
                "registry document has no definition block",
            ),
            RegistryError::MissingReferenceBlock => String::from_str(
                "registry document has no reference block",
            ),
            RegistryError::DuplicateDefinition => String::from_str(
                "definition block already lists the key",
            ),
            RegistryError::DuplicateReference => String::from_str(
                "reference block already lists the key",
            ),
        }
    }
}

pub open spec fn spaces(n: nat) -> Seq<char> {
    Seq::new(n, |_i: int| ' ')
}

pub open spec fn definition_marker() -> Seq<char> {
    seq!['-', ' ', '&']
}

pub open spec fn reference_marker() -> Seq<char> {
    seq!['-', ' ', '*']
}

/// `users: &age_keys` for the group `users`.
pub open spec fn definition_sentinel(group: Seq<char>) -> Seq<char> {
    group + seq![':', ' ', '&', 'a', 'g', 'e', '_', 'k', 'e', 'y', 's']
}

/// `- age:`
pub open spec fn reference_sentinel() -> Seq<char> {
    seq!['-', ' ', 'a', 'g', 'e', ':']
}

pub open spec fn definition_line(name: Seq<char>, value: Seq<char>) -> Seq<char> {
    spaces(DEFINITION_INDENT as nat) + definition_marker() + name + seq![' '] + value
}

pub open spec fn reference_line(name: Seq<char>) -> Seq<char> {
    spaces(REFERENCE_INDENT as nat) + reference_marker() + name
}

/// The line defines the anchor `name` (or one whose name starts with it).
pub open spec fn defines(line: Seq<char>, name: Seq<char>) -> bool {
    starts_with_seq(trim_start_seq(line), definition_marker() + name)
}

/// The first line at or after `i` that defines `name`.
pub open spec fn definition_index(d: Seq<Seq<char>>, name: Seq<char>, i: int) -> Option<int>
    decreases d.len() - i,
{
    if i < 0 || i >= d.len() {
        None
    } else if defines(d[i], name) {
        Some(i)
    } else {
        definition_index(d, name, i + 1)
    }
}

/// Where a block ends within the first `n` lines: the last line that is the
/// block's sentinel, moved forward over the entry lines (starting with
/// `marker` once indentation is removed) that follow it without a gap.
pub open spec fn block_cursor(d: Seq<Seq<char>>, sentinel: Seq<char>, marker: Seq<char>, n: int) -> Option<int>
    decreases n,
{
    if n <= 0 {
        None
    } else if trim_seq(d[n - 1]) == sentinel {
        Some(n - 1)
    } else if block_cursor(d, sentinel, marker, n - 1) == Some(n - 2) && starts_with_seq(
        trim_start_seq(d[n - 1]),
        marker,
    ) {
        Some(n - 1)
    } else {
        block_cursor(d, sentinel, marker, n - 1)
    }
}

/// Line `i` is an entry of a block.
pub open spec fn is_block_entry(d: Seq<Seq<char>>, sentinel: Seq<char>, marker: Seq<char>, i: int) -> bool {
    trim_seq(d[i]) != sentinel && block_cursor(d, sentinel, marker, i + 1) == Some(i)
}

/// Some entry of a block among the first `n` lines, trimmed, is `target`.
pub open spec fn block_lists(
    d: Seq<Seq<char>>,
    sentinel: Seq<char>,
    marker: Seq<char>,
    target: Seq<char>,
    n: int,
) -> bool {
    exists|i: int|
        0 <= i < n && #[trigger] is_block_entry(d, sentinel, marker, i) && trim_seq(d[i]) == target
}

/// `d` with `a` inserted before position `p` and `b` before position `q`,
/// both positions taken in `d`.
pub open spec fn insert_two(d: Seq<Seq<char>>, p: int, a: Seq<char>, q: int, b: Seq<char>) -> Seq<Seq<char>> {
    if p <= q {
        d.insert(q, b).insert(p, a)
    } else {
        d.insert(p, a).insert(q, b)
    }
}

/// What inserting a new definition and its alias makes of `d`.
pub open spec fn insertion_result(d: Seq<Seq<char>>, group: Seq<char>, name: Seq<char>, value: Seq<char>) -> Result<Seq<Seq<char>>, RegistryError> {
    let n = d.len() as int;
    let dc = block_cursor(d, definition_sentinel(group), definition_marker(), n);
    let rc = block_cursor(d, reference_sentinel(), reference_marker(), n);
    if dc is None {
        Err(RegistryError::MissingDefinitionBlock)
    } else if block_lists(d, definition_sentinel(group), definition_marker(), trim_seq(definition_line(name, value)), n) {
        Err(RegistryError::DuplicateDefinition)
    } else if rc is None {
        Err(RegistryError::MissingReferenceBlock)
    } else if block_lists(d, reference_sentinel(), reference_marker(), trim_seq(reference_line(name)), n) {
        Err(RegistryError::DuplicateReference)
    } else {
        Ok(insert_two(d, dc->Some_0 + 1, definition_line(name, value), rc->Some_0 + 1, reference_line(name)))
    }
}

/// What `upsert_key` makes of `d`: its outcome and the new document.
pub open spec fn upsert_result(d: Seq<Seq<char>>, group: Seq<char>, name: Seq<char>, value: Seq<char>) -> Result<(UpsertOutcome, Seq<Seq<char>>), RegistryError> {
    match definition_index(d, name, 0) {
        Some(i) => if trim_seq(d[i]) == trim_seq(definition_line(name, value)) {
            Ok((UpsertOutcome::Unchanged, d))
        } else {
            Ok((UpsertOutcome::Updated, d.update(i, definition_line(name, value))))
        },
        None => match insertion_result(d, group, name, value) {
            Ok(e) => Ok((UpsertOutcome::Inserted, e)),
            Err(e) => Err(e),
        },
    }
}

fn indentation(n: usize) -> (r: String)
    ensures
        r@ == spaces(n as nat),
{
    let mut s = String::new();
    let mut i: usize = 0;
    while i < n
        invariant
            i <= n,
            s@ == spaces(i as nat),
        decreases n - i,
    {
        proof {
            reveal_strlit(" ");
        }
        s.append(" ");
        i = i + 1;
        assert(s@ =~= spaces(i as nat));
    }
    s
}

/// The canonical definition line `    - &name value`.
pub fn make_definition_line(key_name: &str, key_value: &str) -> (r: String)
    ensures
        r@ == definition_line(key_name@, key_value@),
{
    let mut s = indentation(DEFINITION_INDENT);
    proof {
        reveal_strlit("- &");
        reveal_strlit(" ");
    }
    s.append("- &");
    s.append(key_name);
    s.append(" ");
    s.append(key_value);
    assert(s@ =~= definition_line(key_name@, key_value@));
    s
}

/// The canonical reference line `          - *name`.
pub fn make_reference_line(key_name: &str) -> (r: String)
    ensures
        r@ == reference_line(key_name@),
{
    let mut s = indentation(REFERENCE_INDENT);
    proof {
        reveal_strlit("- *");
    }
    s.append("- *");
    s.append(key_name);
    assert(s@ =~= reference_line(key_name@));
    s
}

proof fn lemma_doc_view_update(v: Seq<String>, i: int, x: String)
    requires
        0 <= i < v.len(),
    ensures
        doc_view(v.update(i, x)) == doc_view(v).update(i, x@),
{
    assert(doc_view(v.update(i, x)) =~= doc_view(v).update(i, x@));
}

proof fn lemma_doc_view_insert(v: Seq<String>, i: int, x: String)
    requires
        0 <= i <= v.len(),
    ensures
        doc_view(v.insert(i, x)) == doc_view(v).insert(i, x@),
{
    v.insert_ensures(i, x);
    doc_view(v).insert_ensures(i, x@);
    assert(doc_view(v.insert(i, x)) =~= doc_view(v).insert(i, x@));
}

proof fn lemma_definition_index(d: Seq<Seq<char>>, name: Seq<char>, k: int)
    requires
        0 <= k,
    ensures
        match definition_index(d, name, k) {
            Some(i) => k <= i < d.len() && defines(d[i], name) && forall|j: int|
                k <= j < i ==> !defines(#[trigger] d[j], name),
            None => forall|j: int| k <= j < d.len() ==> !defines(#[trigger] d[j], name),
        },
    decreases d.len() - k,
{
    if k < d.len() {
        lemma_definition_index(d, name, k + 1);
    }
}

/// The index of the first line that defines `key_name`.
pub fn find_definition(lines: &Vec<String>, key_name: &str) -> (r: Option<usize>)
    ensures
        r matches Some(i) ==> i < lines@.len() && definition_index(doc_view(lines@), key_name@, 0)
            == Some(i as int),
        r is None ==> definition_index(doc_view(lines@), key_name@, 0) is None,
{
    let ghost d = doc_view(lines@);
    proof {
        reveal_strlit("- &");
    }
    let mut prefix = String::from_str("- &");
    prefix.append(key_name);
    assert(prefix@ =~= definition_marker() + key_name@);
    let mut i: usize = 0;
    while i < lines.len()
        invariant
            d == doc_view(lines@),
            i <= lines@.len(),
            prefix@ == definition_marker() + key_name@,
            definition_index(d, key_name@, 0) == definition_index(d, key_name@, i as int),
        decreases lines@.len() - i,
    {
        if trim_start_starts_with(lines[i].as_str(), prefix.as_str()) {
            return Some(i);
        }
        i = i + 1;
    }
    None
}

/// Gives the existing definition of `key_name` the value `key_value`.
pub fn update_sops_key(lines: &mut Vec<String>, key_name: &str, key_value: &str) -> (r: DefinitionUpdate)
    ensures
        ({
            let d = doc_view(old(lines)@);
            let line = definition_line(key_name@, key_value@);
            match definition_index(d, key_name@, 0) {
                None => r == DefinitionUpdate::Absent && final(lines)@ == old(lines)@,
                Some(i) => if trim_seq(d[i]) == trim_seq(line) {
                    r == DefinitionUpdate::Unchanged && final(lines)@ == old(lines)@
                } else {
                    r == DefinitionUpdate::Replaced && doc_view(final(lines)@) == d.update(i, line)
                },
            }
        }),
{
    match find_definition(lines, key_name) {
        None => DefinitionUpdate::Absent,
        Some(i) => {
            let line = make_definition_line(key_name, key_value);
            if trims_equal(lines[i].as_str(), line.as_str()) {
                DefinitionUpdate::Unchanged
            } else {
                proof {
                    lemma_doc_view_update(lines@, i as int, line);
                }
                lines.set(i, line);
                DefinitionUpdate::Replaced
            }
        },
    }
}

/// Scans one block: where it ends, and whether one of its entries, trimmed,
/// equals `entry` trimmed.
fn scan_block(lines: &Vec<String>, sentinel: &str, marker: &str, entry: &str) -> (r: (
    Option<usize>,
    bool,
))
    ensures
        ({
            let d = doc_view(lines@);
            let n = lines@.len() as int;
            &&& r.0 matches Some(c) ==> c < n && block_cursor(d, sentinel@, marker@, n) == Some(
                c as int,
            )
            &&& r.0 is None ==> block_cursor(d, sentinel@, marker@, n) is None
            &&& r.1 == block_lists(d, sentinel@, marker@, trim_seq(entry@), n)
        }),
{
    let ghost d = doc_view(lines@);
    let mut cursor: Option<usize> = None;
    let mut seen = false;
    let mut i: usize = 0;
    while i < lines.len()
        invariant
            d == doc_view(lines@),
            i <= lines@.len(),
            cursor matches Some(c) ==> c < i && block_cursor(d, sentinel@, marker@, i as int) == Some(c as int),
            cursor is None ==> block_cursor(d, sentinel@, marker@, i as int) is None,
            seen == block_lists(d, sentinel@, marker@, trim_seq(entry@), i as int),
        decreases lines@.len() - i,
    {
        let line = lines[i].as_str();
        assert(line@ == d[i as int]);
        if trim_equals(line, sentinel) {
            cursor = Some(i);
        } else {
            match cursor {
                Some(c) => {
                    if c + 1 == i && trim_start_starts_with(line, marker) {
                        cursor = Some(i);
                        if trims_equal(line, entry) {
                            seen = true;
                        }
                    }
                },
                None => {},
            }
        }
        proof {
            let t = trim_seq(entry@);
            assert(is_block_entry(d, sentinel@, marker@, i as int) == (cursor == Some(i) && trim_seq(d[i as int]) != sentinel@));
            if seen {
                if !block_lists(d, sentinel@, marker@, t, i as int) {
                    assert(is_block_entry(d, sentinel@, marker@, i as int) && trim_seq(d[i as int]) == t);
                }
            }
            if block_lists(d, sentinel@, marker@, t, i + 1) {
                let k = choose|k: int|
                    0 <= k < i + 1 && #[trigger] is_block_entry(d, sentinel@, marker@, k) && trim_seq(d[k]) == t;
                if k == i {
                    assert(seen);
                }
            }
        }
        i = i + 1;
    }
    (cursor, seen)
}

/// Inserts the definition of `key_name` at the end of the definition block
/// of `group` and its alias at the end of the reference block. Either both
/// lines go in, or the document is left as it was.
pub fn add_new_sops_key(lines: &mut Vec<String>, group: &str, key_name: &str, key_value: &str) -> (r:
    Result<(), RegistryError>)
    ensures
        match insertion_result(doc_view(old(lines)@), group@, key_name@, key_value@) {
            Ok(e) => r is Ok && doc_view(final(lines)@) == e,
            Err(err) => r == Err::<(), RegistryError>(err) && final(lines)@ == old(lines)@,
        },
{
    let ghost d = doc_view(lines@);
    let def_line = make_definition_line(key_name, key_value);
    let ref_line = make_reference_line(key_name);
    proof {
        reveal_strlit(": &age_keys");
        reveal_strlit("- &");
        reveal_strlit("- *");
        reveal_strlit("- age:");
    }
    let mut def_sentinel = String::from_str(group);
    def_sentinel.append(": &age_keys");
    assert(def_sentinel@ =~= definition_sentinel(group@));
    assert("- &"@ =~= definition_marker());
    assert("- *"@ =~= reference_marker());
    assert("- age:"@ =~= reference_sentinel());
    let (dc, def_seen) = scan_block(lines, def_sentinel.as_str(), "- &", def_line.as_str());
    let (rc, ref_seen) = scan_block(lines, "- age:", "- *", ref_line.as_str());
    let dc = match dc {
        None => return Err(RegistryError::MissingDefinitionBlock),
        Some(c) => c,
    };
    if def_seen {
        return Err(RegistryError::DuplicateDefinition);
    }
    let rc = match rc {
        None => return Err(RegistryError::MissingReferenceBlock),
        Some(c) => c,
    };
    if ref_seen {
        return Err(RegistryError::DuplicateReference);
    }
    let n = lines.len();
    assert(dc < n && rc < n);
    let p = dc + 1;
    let q = rc + 1;
    if p <= q {
        proof {
            lemma_doc_view_insert(lines@, q as int, ref_line);
        }
        lines.insert(q, ref_line);
        proof {
            lemma_doc_view_insert(lines@, p as int, def_line);
        }
        lines.insert(p, def_line);
    } else {
        proof {
            lemma_doc_view_insert(lines@, p as int, def_line);
        }
        lines.insert(p, def_line);
        proof {
            lemma_doc_view_insert(lines@, q as int, ref_line);
        }
        lines.insert(q, ref_line);
    }
    Ok(())
}

/// Records `key_name` with `key_value` in the registry document: updates its
/// definition where one exists, else inserts a definition into the block of
/// `group` and an alias into the reference block. On an error, and when the
/// definition already holds the value, the lines are left as they were.
pub fn upsert_key(lines: &mut Vec<String>, group: &str, key_name: &str, key_value: &str) -> (r: Result<
    UpsertOutcome,
    RegistryError,
>)
    ensures
        match r {
            Ok(o) => upsert_result(doc_view(old(lines)@), group@, key_name@, key_value@) == Ok::<
                (UpsertOutcome, Seq<Seq<char>>),
                RegistryError,
            >((o, doc_view(final(lines)@))),
            Err(e) => upsert_result(doc_view(old(lines)@), group@, key_name@, key_value@) == Err::<
                (UpsertOutcome, Seq<Seq<char>>),
                RegistryError,
            >(e),
        },
        r is Err || r == Ok::<UpsertOutcome, RegistryError>(UpsertOutcome::Unchanged) ==> final(lines)@
            == old(lines)@,
{
    match update_sops_key(lines, key_name, key_value) {
        DefinitionUpdate::Unchanged => Ok(UpsertOutcome::Unchanged),
        DefinitionUpdate::Replaced => Ok(UpsertOutcome::Updated),
        DefinitionUpdate::Absent => match add_new_sops_key(lines, group, key_name, key_value) {
            Ok(()) => Ok(UpsertOutcome::Inserted),
            Err(e) => Err(e),
        },
    }
}

proof fn lemma_trim_start_spaces(k: nat, t: Seq<char>)
    ensures
        trim_start_seq(spaces(k) + t) == trim_start_seq(t),
    decreases k,
{
    if k > 0 {
        let u = spaces(k) + t;
        assert(u[0] == ' ');
        assert(u.drop_first() =~= spaces((k - 1) as nat) + t);
        lemma_trim_start_spaces((k - 1) as nat, t);
    } else {
        assert(spaces(k) + t =~= t);
    }
}

proof fn lemma_definition_line_defines(name: Seq<char>, value: Seq<char>)
    ensures
        defines(definition_line(name, value), name),
{
    let t = definition_marker() + name + seq![' '] + value;
    assert(definition_line(name, value) =~= spaces(DEFINITION_INDENT as nat) + t);
    lemma_trim_start_spaces(DEFINITION_INDENT as nat, t);
    assert(t[0] == '-');
    assert(trim_start_seq(t) == t);
    assert(t.subrange(0, (definition_marker() + name).len() as int) =~= definition_marker() + name);
}

proof fn lemma_reference_line_defines_nothing(name: Seq<char>)
    ensures
        !defines(reference_line(name), name),
{
    let t = reference_marker() + name;
    assert(reference_line(name) =~= spaces(REFERENCE_INDENT as nat) + t);
    lemma_trim_start_spaces(REFERENCE_INDENT as nat, t);
    assert(t[0] == '-');
    assert(trim_start_seq(t) == t);
    let m = definition_marker() + name;
    if m.len() <= t.len() {
        assert(t.subrange(0, m.len() as int)[2] != m[2]);
    }
}

proof fn lemma_definition_index_first(d: Seq<Seq<char>>, name: Seq<char>, i: int, k: int)
    requires
        0 <= k <= i < d.len(),
        defines(d[i], name),
        forall|j: int| 0 <= j < i ==> !defines(#[trigger] d[j], name),
    ensures
        definition_index(d, name, k) == Some(i),
    decreases i - k,
{
    if k < i {
        lemma_definition_index_first(d, name, i, k + 1);
    }
}

proof fn lemma_block_cursor_in_range(d: Seq<Seq<char>>, sentinel: Seq<char>, marker: Seq<char>, n: int)
    ensures
        block_cursor(d, sentinel, marker, n) matches Some(c) ==> 0 <= c < n,
    decreases n,
{
    if n > 0 {
        lemma_block_cursor_in_range(d, sentinel, marker, n - 1);
    }
}

proof fn lemma_block_cursor_without_sentinel(d: Seq<Seq<char>>, sentinel: Seq<char>, marker: Seq<char>, n: int)
    requires
        n <= d.len(),
        forall|i: int| 0 <= i < n ==> trim_seq(#[trigger] d[i]) != sentinel,
    ensures
        block_cursor(d, sentinel, marker, n) is None,
    decreases n,
{
    if n > 0 {
        lemma_block_cursor_without_sentinel(d, sentinel, marker, n - 1);
    }
}

/// Running `upsert_key` again with the same group, name and value, on the
/// document that a successful run produced, changes nothing and reports
/// `Unchanged`.
pub proof fn lemma_upsert_idempotent(d: Seq<Seq<char>>, group: Seq<char>, name: Seq<char>, value: Seq<char>)
    requires
        upsert_result(d, group, name, value) is Ok,
    ensures
        ({
            let d2 = upsert_result(d, group, name, value)->Ok_0.1;
            upsert_result(d2, group, name, value) == Ok::<(UpsertOutcome, Seq<Seq<char>>), RegistryError>(
                (UpsertOutcome::Unchanged, d2),
            )
        }),
{
    let line = definition_line(name, value);
    lemma_definition_line_defines(name, value);
    lemma_definition_index(d, name, 0);
    match definition_index(d, name, 0) {
        Some(i) => {
            if trim_seq(d[i]) != trim_seq(line) {
                let d2 = d.update(i, line);
                assert forall|j: int| 0 <= j < i implies !defines(#[trigger] d2[j], name) by {
                    assert(d2[j] == d[j]);
                }
                lemma_definition_index_first(d2, name, i, 0);
            }
        },
        None => {
            let n = d.len() as int;
            let dc = block_cursor(d, definition_sentinel(group), definition_marker(), n);
            let rc = block_cursor(d, reference_sentinel(), reference_marker(), n);
            lemma_block_cursor_in_range(d, definition_sentinel(group), definition_marker(), n);
            lemma_block_cursor_in_range(d, reference_sentinel(), reference_marker(), n);
            let p = dc->Some_0 + 1;
            let q = rc->Some_0 + 1;
            let rl = reference_line(name);
            lemma_reference_line_defines_nothing(name);
            let d2 = insert_two(d, p, line, q, rl);
            if p <= q {
                let e = d.insert(q, rl);
                d.insert_ensures(q, rl);
                e.insert_ensures(p, line);
                assert forall|j: int| 0 <= j < p implies !defines(#[trigger] d2[j], name) by {
                    assert(d2[j] == d[j]);
                }
                lemma_definition_index_first(d2, name, p, 0);
            } else {
                let e = d.insert(p, line);
                d.insert_ensures(p, line);
                e.insert_ensures(q, rl);
                assert forall|j: int| 0 <= j < p + 1 implies !defines(#[trigger] d2[j], name) by {
                    if j < q {
                        assert(d2[j] == d[j]);
                    } else if j > q {
                        assert(d2[j] == e[j - 1]);
                        assert(e[j - 1] == d[j - 1]);
                    }
                }
                assert(d2[p + 1] == e[p]);
                lemma_definition_index_first(d2, name, p + 1, 0);
            }
        },
    }
}

/// Where no line defines `name` and no line is the reference block's
/// sentinel, `upsert_key` fails (and, by its contract, leaves the document
/// as it was).
pub proof fn lemma_missing_reference_block_fails(d: Seq<Seq<char>>, group: Seq<char>, name: Seq<char>, value: Seq<char>)
    requires
        definition_index(d, name, 0) is None,
        forall|i: int| 0 <= i < d.len() ==> trim_seq(#[trigger] d[i]) != reference_sentinel(),
    ensures
        upsert_result(d, group, name, value) is Err,
{
    lemma_block_cursor_without_sentinel(d, reference_sentinel(), reference_marker(), d.len() as int);
}

} // verus!
