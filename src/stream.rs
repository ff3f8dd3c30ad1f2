use vstd::prelude::*;

use crate::text::{
    json_nested_str_field, json_nested_string_field, json_str_field, json_string_field, lossy_of,
    lossy_text, strings_view, trim_of, trim_text,
};

verus! {

/// The newline byte; it never occurs inside a multi-byte UTF-8 character.
pub const NEWLINE: u8 = 10;

/// The carriage-return byte.
pub const CARRIAGE_RETURN: u8 = 13;

/// Splits a byte stream at each newline: the complete lines (without their
/// newline), and the unfinished rest.
pub open spec fn scan_lines(s: Seq<u8>) -> (Seq<Seq<u8>>, Seq<u8>)
    decreases s.len(),
{
    if s.len() == 0 {
        (Seq::empty(), Seq::empty())
    } else {
        let (lines, cur) = scan_lines(s.drop_last());
        if s.last() == 10u8 {
            (lines.push(cur), Seq::empty())
        } else {
            (lines, cur.push(s.last()))
        }
    }
}

/// Splits a byte stream at each blank line ("\n\n"), taking the first
/// separator each time: the complete records, and the unfinished rest.
pub open spec fn scan_records(s: Seq<u8>) -> (Seq<Seq<u8>>, Seq<u8>)
    decreases s.len(),
{
    if s.len() == 0 {
        (Seq::empty(), Seq::empty())
    } else {
        let (records, cur) = scan_records(s.drop_last());
        if s.last() == 10u8 && cur.len() > 0 && cur.last() == 10u8 {
            (records.push(cur.drop_last()), Seq::empty())
        } else {
            (records, cur.push(s.last()))
        }
    }
}

/// Each byte sequence decoded as UTF-8, invalid sequences replaced.
pub open spec fn decoded(units: Seq<Seq<u8>>) -> Seq<Seq<char>> {
    units.map_values(|u: Seq<u8>| lossy_of(u))
}

/// A terminated line without the carriage return that ends it, if any.
pub open spec fn strip_cr(line: Seq<u8>) -> Seq<u8> {
    if line.len() > 0 && line.last() == 13u8 {
        line.drop_last()
    } else {
        line
    }
}

/// The lines of a record: split at newlines, a carriage return before a
/// newline dropped, and an unterminated last line kept when non-empty.
pub open spec fn record_lines(record: Seq<u8>) -> Seq<Seq<u8>> {
    let (lines, rest) = scan_lines(record);
    lines.map_values(|l: Seq<u8>| strip_cr(l)) + (if rest.len() > 0 {
        seq![rest]
    } else {
        Seq::empty()
    })
}

/// The text fragment of one line of the local backend's stream: the string at
/// `message.content` of the trimmed line, for a non-empty line that parses.
pub open spec fn local_line_delta(line: Seq<char>) -> Option<Seq<char>> {
    let t = trim_of(line);
    if t.len() == 0 {
        None
    } else {
        json_nested_str_field(t, "message"@, "content"@)
    }
}

/// The fragments of a sequence of local lines, in order.
pub open spec fn local_deltas(lines: Seq<Seq<char>>) -> Seq<Seq<char>>
    decreases lines.len(),
{
    if lines.len() == 0 {
        Seq::empty()
    } else {
        let rest = local_deltas(lines.drop_last());
        match local_line_delta(lines.last()) {
            Some(d) => rest.push(d),
            None => rest,
        }
    }
}

/// The trimmed payload of a `data:` line.
pub open spec fn data_payload(line: Seq<char>) -> Option<Seq<char>> {
    if 5 <= line.len() && line.take(5) == "data:"@ {
        Some(trim_of(line.skip(5)))
    } else {
        None
    }
}

/// The text increment of one line of the cloud backend's event stream: only
/// for a `data:` payload that is neither empty nor the terminator, parses,
/// and is typed as an output-text delta.
pub open spec fn cloud_line_delta(line: Seq<char>) -> Option<Seq<char>> {
    match data_payload(line) {
        None => None,
        Some(p) => if p.len() == 0 || p == "[DONE]"@ {
            None
        } else if json_str_field(p, "type"@) == Some("response.output_text.delta"@) {
            json_str_field(p, "delta"@)
        } else {
            None
        },
    }
}

/// The increments of a sequence of event lines, in order.
pub open spec fn cloud_line_deltas(lines: Seq<Seq<char>>) -> Seq<Seq<char>>
    decreases lines.len(),
{
    if lines.len() == 0 {
        Seq::empty()
    } else {
        let rest = cloud_line_deltas(lines.drop_last());
        match cloud_line_delta(lines.last()) {
            Some(d) => rest.push(d),
            None => rest,
        }
    }
}

/// The increments of a sequence of event records, in order.
pub open spec fn cloud_deltas(records: Seq<Seq<u8>>) -> Seq<Seq<char>>
    decreases records.len(),
{
    if records.len() == 0 {
        Seq::empty()
    } else {
        cloud_deltas(records.drop_last()) + cloud_line_deltas(decoded(record_lines(records.last())))
    }
}

/// Joins `a` and a chunk, emptying `a`.
fn joined(a: &mut Vec<u8>, chunk: &[u8]) -> (r: Vec<u8>)
    ensures
        r@ == old(a)@ + chunk@,
{
    let mut all: Vec<u8> = Vec::new();
    all.append(a);
    let mut i: usize = 0;
    while i < chunk.len()
        invariant
            0 <= i <= chunk.len(),
            all@ == old(a)@ + chunk@.take(i as int),
        decreases chunk.len() - i,
    {
        all.push(chunk[i]);
        assert(old(a)@ + chunk@.take(i + 1) =~= (old(a)@ + chunk@.take(i as int)).push(chunk@[i as int]));
        i = i + 1;
    }
    assert(chunk@.take(chunk.len() as int) =~= chunk@);
    all
}

/// The fragment of one complete local line.
fn local_delta(line: &str) -> (r: Option<String>)
    ensures
        match r {
            Some(d) => local_line_delta(line@) == Some(d@),
            None => local_line_delta(line@).is_none(),
        },
{
    let t = trim_text(line);
    if t.is_empty() {
        None
    } else {
        json_nested_string_field(t, "message", "content")
    }
}

/// Decoder for the local backend's newline-delimited JSON stream. Raw bytes
/// are buffered and split at newlines before any decoding, so where chunks
/// are cut does not matter.
pub struct NdjsonDecoder {
    pending: Vec<u8>,
}

impl View for NdjsonDecoder {
    type V = Seq<u8>;

    /// The bytes of the unfinished last line.
    closed spec fn view(&self) -> Seq<u8> {
        self.pending@
    }
}

impl NdjsonDecoder {
    pub fn new() -> (r: Self)
        ensures
            r@ == Seq::<u8>::empty(),
    {
        NdjsonDecoder { pending: Vec::new() }
    }

    /// Takes the next chunk of raw bytes and returns, in order, the fragments
    /// of the lines that it completes; the unfinished line is kept.
    pub fn push(&mut self, chunk: &[u8]) -> (r: Vec<String>)
        ensures
            strings_view(r@) == local_deltas(decoded(scan_lines(old(self)@ + chunk@).0)),
            final(self)@ == scan_lines(old(self)@ + chunk@).1,
    {
        let all = joined(&mut self.pending, chunk);
        let ghost s = all@;
        let mut out: Vec<String> = Vec::new();
        let mut cur: Vec<u8> = Vec::new();
        let mut i: usize = 0;
        while i < all.len()
            invariant
                s == all@,
                0 <= i <= all.len(),
                strings_view(out@) == local_deltas(decoded(scan_lines(s.take(i as int)).0)),
                cur@ == scan_lines(s.take(i as int)).1,
            decreases all.len() - i,
        {
            let ghost before = strings_view(out@);
            let ghost lines = scan_lines(s.take(i as int)).0;
            assert(s.take(i + 1).drop_last() =~= s.take(i as int));
            assert(s.take(i + 1).last() == s[i as int]);
            let b = all[i];
            if b == NEWLINE {
                let line = lossy_text(cur.as_slice());
                assert(decoded(lines.push(cur@)) =~= decoded(lines).push(lossy_of(cur@)));
                assert(decoded(lines.push(cur@)).drop_last() =~= decoded(lines));
                match local_delta(line.as_str()) {
                    Some(d) => {
                        out.push(d);
                        assert(strings_view(out@) =~= before.push(d@));
                    },
                    None => {},
                }
                cur = Vec::new();
            } else {
                cur.push(b);
            }
            i = i + 1;
        }
        assert(s.take(s.len() as int) =~= s);
        self.pending = cur;
        out
    }
}

/// The increment of one event line.
fn cloud_delta(line: &str) -> (r: Option<String>)
    ensures
        match r {
            Some(d) => cloud_line_delta(line@) == Some(d@),
            None => cloud_line_delta(line@).is_none(),
        },
{
    let n = line.unicode_len();
    if n < 5 || String::from_str(line.substring_char(0, 5)) != String::from_str("data:") {
        return None;
    }
    proof {
        reveal_strlit("data:");
    }
    let payload = String::from_str(trim_text(line.substring_char(5, n)));
    if payload.as_str().is_empty() || payload == String::from_str("[DONE]") {
        return None;
    }
    match json_string_field(payload.as_str(), "type") {
        Some(kind) => {
            if kind == String::from_str("response.output_text.delta") {
                json_string_field(payload.as_str(), "delta")
            } else {
                None
            }
        },
        None => None,
    }
}

/// Appends the increment of one line's bytes, if any.
fn push_line_delta(out: &mut Vec<String>, line: &[u8])
    ensures
        strings_view(final(out)@) == strings_view(old(out)@) + cloud_line_deltas(seq![lossy_of(line@)]),
{
    let text = lossy_text(line);
    let ghost one = seq![lossy_of(line@)];
    assert(one.drop_last() =~= Seq::<Seq<char>>::empty());
    assert(one.last() == lossy_of(line@));
    assert(cloud_line_deltas(Seq::<Seq<char>>::empty()) =~= Seq::<Seq<char>>::empty());
    match cloud_delta(text.as_str()) {
        Some(d) => {
            let ghost before = strings_view(out@);
            out.push(d);
            assert(cloud_line_deltas(one) =~= seq![d@]);
            assert(strings_view(out@) =~= before + seq![d@]);
        },
        None => {
            assert(cloud_line_deltas(one) =~= Seq::<Seq<char>>::empty());
            assert(strings_view(out@) =~= strings_view(out@) + Seq::<Seq<char>>::empty());
        },
    }
}

/// Splitting the line list after a prefix splits its increments too.
proof fn lemma_cloud_line_deltas_append(a: Seq<Seq<char>>, b: Seq<Seq<char>>)
    ensures
        cloud_line_deltas(a + b) == cloud_line_deltas(a) + cloud_line_deltas(b),
    decreases b.len(),
{
    if b.len() == 0 {
        assert(a + b =~= a);
        assert(cloud_line_deltas(a) + cloud_line_deltas(b) =~= cloud_line_deltas(a));
    } else {
        assert((a + b).drop_last() =~= a + b.drop_last());
        assert((a + b).last() == b.last());
        lemma_cloud_line_deltas_append(a, b.drop_last());
        match cloud_line_delta(b.last()) {
            Some(d) => {
                assert(cloud_line_deltas(a) + cloud_line_deltas(b.drop_last()).push(d)
                    =~= (cloud_line_deltas(a) + cloud_line_deltas(b.drop_last())).push(d));
            },
            None => {},
        }
    }
}

/// The increments of the lines of one complete record.
fn record_deltas(record: &[u8]) -> (r: Vec<String>)
    ensures
        strings_view(r@) == cloud_line_deltas(decoded(record_lines(record@))),
{
    let ghost s = record@;
    let mut out: Vec<String> = Vec::new();
    let mut cur: Vec<u8> = Vec::new();
    let mut i: usize = 0;
    while i < record.len()
        invariant
            s == record@,
            0 <= i <= record.len(),
            strings_view(out@) == cloud_line_deltas(decoded(scan_lines(s.take(i as int)).0.map_values(|l: Seq<u8>| strip_cr(l)))),
            cur@ == scan_lines(s.take(i as int)).1,
        decreases record.len() - i,
    {
        let ghost lines = scan_lines(s.take(i as int)).0;
        assert(s.take(i + 1).drop_last() =~= s.take(i as int));
        assert(s.take(i + 1).last() == s[i as int]);
        let b = record[i];
        if b == NEWLINE {
            let ghost whole = cur@;
            if cur.len() > 0 && cur[cur.len() - 1] == CARRIAGE_RETURN {
                cur.pop();
            }
            assert(cur@ == strip_cr(whole));
            let ghost prev = decoded(lines.map_values(|l: Seq<u8>| strip_cr(l)));
            assert(decoded(lines.push(whole).map_values(|l: Seq<u8>| strip_cr(l))) =~= prev + seq![lossy_of(cur@)]);
            proof {
                lemma_cloud_line_deltas_append(prev, seq![lossy_of(cur@)]);
            }
            push_line_delta(&mut out, cur.as_slice());
            cur = Vec::new();
        } else {
            cur.push(b);
        }
        i = i + 1;
    }
    assert(s.take(s.len() as int) =~= s);
    let ghost lines = scan_lines(s).0;
    let ghost prev = decoded(lines.map_values(|l: Seq<u8>| strip_cr(l)));
    if cur.len() > 0 {
        assert(decoded(record_lines(s)) =~= prev + seq![lossy_of(cur@)]);
        proof {
            lemma_cloud_line_deltas_append(prev, seq![lossy_of(cur@)]);
        }
        push_line_delta(&mut out, cur.as_slice());
    } else {
        assert(decoded(record_lines(s)) =~= prev);
    }
    out
}

/// Decoder for the cloud backend's server-sent-event stream. Raw bytes are
/// buffered and split into records before any decoding, so where chunks are
/// cut does not matter.
pub struct SseDecoder {
    pending: Vec<u8>,
}

impl View for SseDecoder {
    type V = Seq<u8>;

    /// The bytes of the unfinished last record.
    closed spec fn view(&self) -> Seq<u8> {
        self.pending@
    }
}

impl SseDecoder {
    pub fn new() -> (r: Self)
        ensures
            r@ == Seq::<u8>::empty(),
    {
        SseDecoder { pending: Vec::new() }
    }

    /// Takes the next chunk of raw bytes and returns, in order, the text
    /// increments of the records that it completes; the unfinished record is
    /// kept.
    pub fn push(&mut self, chunk: &[u8]) -> (r: Vec<String>)
        ensures
            strings_view(r@) == cloud_deltas(scan_records(old(self)@ + chunk@).0),
            final(self)@ == scan_records(old(self)@ + chunk@).1,
    {
        let all = joined(&mut self.pending, chunk);
        let ghost s = all@;
        let mut out: Vec<String> = Vec::new();
        let mut cur: Vec<u8> = Vec::new();
        let mut i: usize = 0;
        while i < all.len()
            invariant
                s == all@,
                0 <= i <= all.len(),
                strings_view(out@) == cloud_deltas(scan_records(s.take(i as int)).0),
                cur@ == scan_records(s.take(i as int)).1,
            decreases all.len() - i,
        {
            let ghost before = strings_view(out@);
            let ghost records = scan_records(s.take(i as int)).0;
            assert(s.take(i + 1).drop_last() =~= s.take(i as int));
            assert(s.take(i + 1).last() == s[i as int]);
            let b = all[i];
            if b == NEWLINE && cur.len() > 0 && cur[cur.len() - 1] == NEWLINE {
                let ghost whole = cur@;
                cur.pop();
                assert(cur@ == whole.drop_last());
                assert(records.push(cur@).drop_last() =~= records);
                let mut found = record_deltas(cur.as_slice());
                out.append(&mut found);
                assert(strings_view(out@) =~= before + cloud_line_deltas(decoded(record_lines(cur@))));
                cur = Vec::new();
            } else {
                cur.push(b);
            }
            i = i + 1;
        }
        assert(s.take(s.len() as int) =~= s);
        self.pending = cur;
        out
    }
}

proof fn lemma_lines_rest_stable(x: Seq<u8>)
    ensures
        scan_lines(scan_lines(x).1) == (Seq::<Seq<u8>>::empty(), scan_lines(x).1),
    decreases x.len(),
{
    if x.len() > 0 {
        lemma_lines_rest_stable(x.drop_last());
        let r = scan_lines(x.drop_last()).1;
        if x.last() != 10u8 {
            assert(r.push(x.last()).drop_last() =~= r);
        }
    }
}

proof fn lemma_lines_split(x: Seq<u8>, y: Seq<u8>)
    ensures
        scan_lines(x + y).0 == scan_lines(x).0 + scan_lines(scan_lines(x).1 + y).0,
        scan_lines(x + y).1 == scan_lines(scan_lines(x).1 + y).1,
    decreases y.len(),
{
    let r = scan_lines(x).1;
    if y.len() == 0 {
        assert(x + y =~= x);
        assert(r + y =~= r);
        lemma_lines_rest_stable(x);
        assert(scan_lines(x).0 + Seq::<Seq<u8>>::empty() =~= scan_lines(x).0);
    } else {
        lemma_lines_split(x, y.drop_last());
        assert((x + y).drop_last() =~= x + y.drop_last());
        assert((r + y).drop_last() =~= r + y.drop_last());
        assert((x + y).last() == y.last() && (r + y).last() == y.last());
        let c = scan_lines(r + y.drop_last());
        if y.last() == 10u8 {
            assert(scan_lines(x).0 + c.0.push(c.1) =~= (scan_lines(x).0 + c.0).push(c.1));
        }
    }
}

proof fn lemma_records_rest_stable(x: Seq<u8>)
    ensures
        scan_records(scan_records(x).1) == (Seq::<Seq<u8>>::empty(), scan_records(x).1),
    decreases x.len(),
{
    if x.len() > 0 {
        lemma_records_rest_stable(x.drop_last());
        let r = scan_records(x.drop_last()).1;
        if !(x.last() == 10u8 && r.len() > 0 && r.last() == 10u8) {
            assert(r.push(x.last()).drop_last() =~= r);
            assert(r.push(x.last()).last() == x.last());
        }
    }
}

proof fn lemma_records_split(x: Seq<u8>, y: Seq<u8>)
    ensures
        scan_records(x + y).0 == scan_records(x).0 + scan_records(scan_records(x).1 + y).0,
        scan_records(x + y).1 == scan_records(scan_records(x).1 + y).1,
    decreases y.len(),
{
    let r = scan_records(x).1;
    if y.len() == 0 {
        assert(x + y =~= x);
        assert(r + y =~= r);
        lemma_records_rest_stable(x);
        assert(scan_records(x).0 + Seq::<Seq<u8>>::empty() =~= scan_records(x).0);
    } else {
        lemma_records_split(x, y.drop_last());
        assert((x + y).drop_last() =~= x + y.drop_last());
        assert((r + y).drop_last() =~= r + y.drop_last());
        assert((x + y).last() == y.last() && (r + y).last() == y.last());
        let c = scan_records(r + y.drop_last());
        if y.last() == 10u8 && c.1.len() > 0 && c.1.last() == 10u8 {
            assert(scan_records(x).0 + c.0.push(c.1.drop_last()) =~= (scan_records(x).0 + c.0).push(c.1.drop_last()));
        }
    }
}

proof fn lemma_local_deltas_append(a: Seq<Seq<char>>, b: Seq<Seq<char>>)
    ensures
        local_deltas(a + b) == local_deltas(a) + local_deltas(b),
    decreases b.len(),
{
    if b.len() == 0 {
        assert(a + b =~= a);
        assert(local_deltas(a) + local_deltas(b) =~= local_deltas(a));
    } else {
        assert((a + b).drop_last() =~= a + b.drop_last());
        assert((a + b).last() == b.last());
        lemma_local_deltas_append(a, b.drop_last());
        match local_line_delta(b.last()) {
            Some(d) => {
                assert(local_deltas(a) + local_deltas(b.drop_last()).push(d)
                    =~= (local_deltas(a) + local_deltas(b.drop_last())).push(d));
            },
            None => {},
        }
    }
}

proof fn lemma_cloud_deltas_append(a: Seq<Seq<u8>>, b: Seq<Seq<u8>>)
    ensures
        cloud_deltas(a + b) == cloud_deltas(a) + cloud_deltas(b),
    decreases b.len(),
{
    if b.len() == 0 {
        assert(a + b =~= a);
        assert(cloud_deltas(a) + cloud_deltas(b) =~= cloud_deltas(a));
    } else {
        assert((a + b).drop_last() =~= a + b.drop_last());
        assert((a + b).last() == b.last());
        lemma_cloud_deltas_append(a, b.drop_last());
        assert(cloud_deltas(a) + cloud_deltas(b.drop_last()) + cloud_line_deltas(decoded(record_lines(b.last())))
            =~= cloud_deltas(a) + (cloud_deltas(b.drop_last()) + cloud_line_deltas(decoded(record_lines(b.last())))));
    }
}

/// Feeding the local decoder `a` then `b` yields, together, the same
/// fragments and leaves the same unfinished line as feeding it `a + b` at
/// once: where the chunks are cut does not matter.
pub proof fn law_ndjson_chunking(pending: Seq<u8>, a: Seq<u8>, b: Seq<u8>)
    ensures
        local_deltas(decoded(scan_lines(pending + a).0))
            + local_deltas(decoded(scan_lines(scan_lines(pending + a).1 + b).0))
            == local_deltas(decoded(scan_lines(pending + (a + b)).0)),
        scan_lines(scan_lines(pending + a).1 + b).1 == scan_lines(pending + (a + b)).1,
{
    let x = pending + a;
    assert(pending + (a + b) =~= x + b);
    lemma_lines_split(x, b);
    let l1 = scan_lines(x).0;
    let l2 = scan_lines(scan_lines(x).1 + b).0;
    assert(decoded(l1 + l2) =~= decoded(l1) + decoded(l2));
    lemma_local_deltas_append(decoded(l1), decoded(l2));
}

/// Feeding the cloud decoder `a` then `b` yields, together, the same
/// increments and leaves the same unfinished record as feeding it `a + b` at
/// once: where the chunks are cut does not matter.
pub proof fn law_sse_chunking(pending: Seq<u8>, a: Seq<u8>, b: Seq<u8>)
    ensures
        cloud_deltas(scan_records(pending + a).0) + cloud_deltas(scan_records(scan_records(pending + a).1 + b).0)
            == cloud_deltas(scan_records(pending + (a + b)).0),
        scan_records(scan_records(pending + a).1 + b).1 == scan_records(pending + (a + b)).1,
{
    let x = pending + a;
    assert(pending + (a + b) =~= x + b);
    lemma_records_split(x, b);
    lemma_cloud_deltas_append(scan_records(x).0, scan_records(scan_records(x).1 + b).0);
}

} // verus!
