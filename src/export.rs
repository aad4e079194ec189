//! Export of snapshots as CSV text.

use vstd::prelude::*;
use vstd::string::*;

use crate::db::{snapshot_views, Snapshot, SnapshotView};
use crate::text::{opt_view, push_char};

verus! {

/// `s` with every '"' doubled.
pub open spec fn quotes_doubled(s: Seq<char>) -> Seq<char>
    decreases s.len(),
{
    if s.len() == 0 {
        Seq::empty()
    } else {
        quotes_doubled(s.drop_last()) + if s.last() == '"' { seq!['"', '"'] } else { seq![s.last()] }
    }
}

/// `v` prefixed with a quote when it starts with a character a spreadsheet
/// would read as a formula.
pub open spec fn formula_safe(v: Seq<char>) -> Seq<char> {
    if v.len() > 0 && (v[0] == '=' || v[0] == '+' || v[0] == '-' || v[0] == '@' || v[0] == '\t' || v[0] == '\r') {
        seq!['\''] + v
    } else {
        v
    }
}

/// Whether `v` holds a character that forces quoting.
pub open spec fn needs_quotes(v: Seq<char>) -> bool {
    exists|i: int| 0 <= i < v.len() && (v[i] == ',' || v[i] == '"' || v[i] == '\n' || v[i] == '\r')
}

/// A CSV field for `value`: formula-safe, then quoted with doubled quotes when needed.
pub open spec fn csv_field(value: Seq<char>) -> Seq<char> {
    let s = formula_safe(value);
    if needs_quotes(s) {
        seq!['"'] + quotes_doubled(s) + seq!['"']
    } else {
        s
    }
}

/// Escapes a value for a CSV field, guarding against formula injection.
pub fn csv_escape(value: &str) -> (r: String)
    ensures
        r@ == csv_field(value@),
{
    let n = value.unicode_len();
    let ghost s = formula_safe(value@);
    let mut safe = String::new();
    if n > 0 {
        let c = value.get_char(0);
        if c == '=' || c == '+' || c == '-' || c == '@' || c == '\t' || c == '\r' {
            push_char(&mut safe, '\'');
        }
    }
    let ghost lead = safe@;
    let mut quote = false;
    let mut i: usize = 0;
    while i < n
        invariant
            n == value@.len(),
            i <= n,
            s == lead + value@,
            safe@ == lead + value@.take(i as int),
            lead.len() <= 1,
            lead.len() == 1 ==> lead[0] == '\'',
            quote == exists|j: int|
                0 <= j < i && (value@[j] == ',' || value@[j] == '"' || value@[j] == '\n' || value@[j] == '\r'),
        decreases n - i,
    {
        let c = value.get_char(i);
        if c == ',' || c == '"' || c == '\n' || c == '\r' {
            quote = true;
        }
        push_char(&mut safe, c);
        assert(value@.take(i + 1) =~= value@.take(i as int).push(c));
        assert(safe@ =~= lead + value@.take(i + 1));
        i = i + 1;
    }
    assert(value@.take(n as int) =~= value@);
    assert(safe@ == s);
    proof {
        if quote {
            let j = choose|j: int|
                0 <= j < n && (value@[j] == ',' || value@[j] == '"' || value@[j] == '\n' || value@[j] == '\r');
            assert(s[j + lead.len()] == value@[j]);
        } else {
            assert forall|j: int| 0 <= j < s.len() implies !(s[j] == ',' || s[j] == '"' || s[j] == '\n' || s[j]
                == '\r') by {
                if j >= lead.len() {
                    assert(s[j] == value@[j - lead.len()]);
                }
            }
        }
    }
    if !quote {
        return safe;
    }
    let m = safe.as_str().unicode_len();
    let mut out = String::new();
    push_char(&mut out, '"');
    let mut k: usize = 0;
    while k < m
        invariant
            m == s.len(),
            safe@ == s,
            k <= m,
            out@ == seq!['"'] + quotes_doubled(s.take(k as int)),
        decreases m - k,
    {
        let c = safe.as_str().get_char(k);
        assert(s.take(k + 1).drop_last() =~= s.take(k as int));
        if c == '"' {
            push_char(&mut out, '"');
            push_char(&mut out, '"');
            assert(out@ =~= seq!['"'] + quotes_doubled(s.take(k + 1)));
        } else {
            push_char(&mut out, c);
            assert(out@ =~= seq!['"'] + quotes_doubled(s.take(k + 1)));
        }
        k = k + 1;
    }
    assert(s.take(m as int) =~= s);
    push_char(&mut out, '"');
    out
}

/// The most snapshots one export writes.
pub const MAX_EXPORT_LIMIT: u32 = 10000;

/// How many snapshots an export asks for: `limit`, or the maximum when it is 0.
pub fn export_limit(limit: u32) -> (r: u32)
    ensures
        r == if limit == 0 { MAX_EXPORT_LIMIT } else { limit },
{
    if limit == 0 { MAX_EXPORT_LIMIT } else { limit }
}

/// The RFC 3339 text of an instant given in microseconds since the epoch
/// (empty when the instant is out of range).
pub uninterp spec fn rfc3339_text(micros: i64) -> Seq<char>;

/// Relies on chrono's DateTime::from_timestamp_micros and to_rfc3339: the
/// instant as RFC 3339 text; empty when chrono cannot represent it.
#[verifier::external_body]
fn rfc3339_of(micros: i64) -> (r: String)
    ensures
        r@ == rfc3339_text(micros),
{
    match chrono::DateTime::from_timestamp_micros(micros) {
        Some(d) => d.to_rfc3339(),
        None => String::new(),
    }
}

pub open spec fn csv_optional(o: Option<Seq<char>>) -> Seq<char> {
    match o {
        Some(v) => csv_field(v),
        None => csv_field(Seq::empty()),
    }
}

/// The CSV line of a snapshot whose timestamp reads `time`.
pub open spec fn csv_line(s: SnapshotView, time: Seq<char>) -> Seq<char> {
    csv_field(s.id) + ","@ + csv_field(time) + ","@ + csv_optional(s.active_file) + ","@ + csv_optional(
        s.active_directory,
    ) + ","@ + csv_optional(s.git_branch) + ","@ + csv_optional(s.notes) + "\n"@
}

pub open spec fn csv_header() -> Seq<char> {
    "id,timestamp,active_file,active_directory,git_branch,notes\n"@
}

/// The header and one line per snapshot, in order.
pub open spec fn csv_document(snaps: Seq<SnapshotView>) -> Seq<char>
    decreases snaps.len(),
{
    if snaps.len() == 0 {
        csv_header()
    } else {
        csv_document(snaps.drop_last()) + csv_line(snaps.last(), rfc3339_text(snaps.last().timestamp))
    }
}

fn escape_optional(o: &Option<String>) -> (r: String)
    ensures
        r@ == csv_optional(opt_view(*o)),
{
    match o {
        Some(v) => csv_escape(v.as_str()),
        None => {
            proof {
                reveal_strlit("");
            }
            assert(""@ =~= Seq::<char>::empty());
            csv_escape("")
        },
    }
}

/// The CSV line of one snapshot.
pub fn csv_row(s: &Snapshot) -> (r: String)
    ensures
        r@ == csv_line(s@, rfc3339_text(s.timestamp)),
{
    let time = rfc3339_of(s.timestamp);
    let r = csv_escape(s.id.as_str()).concat(",").concat(csv_escape(time.as_str()).as_str()).concat(",");
    let r = r.concat(escape_optional(&s.active_file).as_str()).concat(",");
    let r = r.concat(escape_optional(&s.active_directory).as_str()).concat(",");
    let r = r.concat(escape_optional(&s.git_branch).as_str()).concat(",");
    r.concat(escape_optional(&s.notes).as_str()).concat("\n")
}

/// The snapshots as a CSV document with a header line.
pub fn snapshots_csv(snapshots: &Vec<Snapshot>) -> (r: String)
    ensures
        r@ == csv_document(snapshot_views(snapshots@)),
{
    let ghost all = snapshot_views(snapshots@);
    let mut out = String::from_str("id,timestamp,active_file,active_directory,git_branch,notes\n");
    let n = snapshots.len();
    let mut i: usize = 0;
    while i < n
        invariant
            n == snapshots.len(),
            all == snapshot_views(snapshots@),
            i <= n,
            out@ == csv_document(all.take(i as int)),
        decreases n - i,
    {
        assert(all.take(i + 1).drop_last() =~= all.take(i as int));
        assert(all[i as int] == snapshots@[i as int]@);
        let row = csv_row(&snapshots[i]);
        out.append(row.as_str());
        i = i + 1;
    }
    assert(all.take(n as int) =~= all);
    out
}

} // verus!
