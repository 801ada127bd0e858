use vstd::prelude::*;

use crate::bytes::push_all;

verus! {

/// One recorded per-entry failure: the asset path of the manifest entry
/// and the message of the error that stopped it.
pub struct DownloadFailure {
    pub path: Vec<u8>,
    pub error: Vec<u8>,
}

/// The mathematical content of one failure record.
pub ghost struct FailureView {
    pub path: Seq<u8>,
    pub error: Seq<u8>,
}

impl View for DownloadFailure {
    type V = FailureView;

    open spec fn view(&self) -> FailureView {
        FailureView { path: self.path@, error: self.error@ }
    }
}

/// The views of a run's recorded failures, oldest first.
pub open spec fn views_of(fs: Seq<DownloadFailure>) -> Seq<FailureView> {
    fs.map_values(|f: DownloadFailure| f@)
}

/// The lowercase hex digit of `n`, for `n` under 16.
pub open spec fn hex_digit(n: u8) -> u8 {
    if n < 10 {
        (48 + n) as u8
    } else {
        (87 + n) as u8
    }
}

/// How one byte stands inside a JSON string: quote and backslash get a
/// backslash before them, the usual control characters their short
/// escape, any other byte under 0x20 the `\u00..` form, and every other
/// byte stands as itself.
pub open spec fn esc_byte(b: u8) -> Seq<u8> {
    if b == 34 {
        seq![92u8, 34u8]
    } else if b == 92 {
        seq![92u8, 92u8]
    } else if b == 8 {
        seq![92u8, 98u8]
    } else if b == 9 {
        seq![92u8, 116u8]
    } else if b == 10 {
        seq![92u8, 110u8]
    } else if b == 12 {
        seq![92u8, 102u8]
    } else if b == 13 {
        seq![92u8, 114u8]
    } else if b < 32 {
        seq![92u8, 117u8, 48u8, 48u8, hex_digit(b / 16), hex_digit(b % 16)]
    } else {
        seq![b]
    }
}

/// The bytes of `s` from `i` on, escaped for a JSON string.
pub open spec fn esc_from(s: Seq<u8>, i: int) -> Seq<u8>
    decreases s.len() - i,
{
    if i < 0 || i >= s.len() {
        Seq::empty()
    } else {
        esc_byte(s[i]) + esc_from(s, i + 1)
    }
}

/// A JSON string literal holding the escaped bytes of `s`.
pub open spec fn json_string(s: Seq<u8>) -> Seq<u8> {
    seq![34u8] + esc_from(s, 0) + seq![34u8]
}

/// The opening `[` of the pretty report array, with its newline.
pub open spec fn array_open() -> Seq<u8> {
    seq![91u8, 10u8]
}

/// The closing `]` of the pretty report array, after a newline.
pub open spec fn array_close() -> Seq<u8> {
    seq![10u8, 93u8]
}

/// The whole report when nothing failed: an empty array.
pub open spec fn empty_array() -> Seq<u8> {
    seq![91u8, 93u8]
}

/// The `,` that stands between two report records.
pub open spec fn item_sep() -> Seq<u8> {
    seq![44u8, 10u8]
}

/// The opening of one record, up to where its path value stands.
pub open spec fn obj_open() -> Seq<u8> {
    seq![32u8, 32u8, 123u8, 10u8, 32u8, 32u8, 32u8, 32u8, 34u8, 112u8, 97u8, 116u8, 104u8, 34u8, 58u8, 32u8]
}

/// The middle of one record, between its path and its error message.
pub open spec fn obj_mid() -> Seq<u8> {
    seq![44u8, 10u8, 32u8, 32u8, 32u8, 32u8, 34u8, 101u8, 114u8, 114u8, 111u8, 114u8, 34u8, 58u8, 32u8]
}

/// The closing brace of one record, indented as an array element.
pub open spec fn obj_close() -> Seq<u8> {
    seq![10u8, 32u8, 32u8, 125u8]
}

/// The pretty-printed object of one failure record, indented as an
/// element of the report array.
pub open spec fn failure_obj(f: FailureView) -> Seq<u8> {
    obj_open() + json_string(f.path) + obj_mid() + json_string(f.error) + obj_close()
}

/// The report records from `i` on, a separator before every record but
/// the first.
pub open spec fn report_items(fs: Seq<FailureView>, i: int) -> Seq<u8>
    decreases fs.len() - i,
{
    if i < 0 || i >= fs.len() {
        Seq::empty()
    } else {
        (if i > 0 {
            item_sep()
        } else {
            Seq::<u8>::empty()
        }) + failure_obj(fs[i]) + report_items(fs, i + 1)
    }
}

/// The whole failure report: a pretty-printed JSON array with one
/// `path`/`error` object per recorded failure, `[]` when nothing failed.
pub open spec fn report_json(fs: Seq<FailureView>) -> Seq<u8> {
    if fs.len() == 0 {
        empty_array()
    } else {
        array_open() + report_items(fs, 0) + array_close()
    }
}

/// The lowercase hex digit of `n`.
fn hex_digit_byte(n: u8) -> (d: u8)
    requires
        n < 16,
    ensures
        d == hex_digit(n),
{
    if n < 10 {
        48 + n
    } else {
        87 + n
    }
}

/// Appends the JSON escape of the byte `b` to `out`.
fn push_escaped_byte(out: &mut Vec<u8>, b: u8)
    ensures
        final(out)@ == old(out)@ + esc_byte(b),
{
    if b == 34 {
        out.push(92);
        out.push(34);
    } else if b == 92 {
        out.push(92);
        out.push(92);
    } else if b == 8 {
        out.push(92);
        out.push(98);
    } else if b == 9 {
        out.push(92);
        out.push(116);
    } else if b == 10 {
        out.push(92);
        out.push(110);
    } else if b == 12 {
        out.push(92);
        out.push(102);
    } else if b == 13 {
        out.push(92);
        out.push(114);
    } else if b < 32 {
        out.push(92);
        out.push(117);
        out.push(48);
        out.push(48);
        out.push(hex_digit_byte(b / 16));
        out.push(hex_digit_byte(b % 16));
    } else {
        out.push(b);
    }
    proof {
        assert(out@ =~= old(out)@ + esc_byte(b));
    }
}

/// Appends the JSON string literal of `s` to `out`.
fn push_json_string(out: &mut Vec<u8>, s: &Vec<u8>)
    ensures
        final(out)@ == old(out)@ + json_string(s@),
{
    out.push(34);
    let mut i: usize = 0;
    while i < s.len()
        invariant
            i <= s@.len(),
            out@ + esc_from(s@, i as int) == old(out)@ + seq![34u8] + esc_from(s@, 0),
        decreases s@.len() - i,
    {
        let ghost out_pre = out@;
        push_escaped_byte(out, s[i]);
        proof {
            assert(esc_from(s@, i as int) == esc_byte(s@[i as int]) + esc_from(s@, i + 1));
            assert(out_pre + (esc_byte(s@[i as int]) + esc_from(s@, i + 1)) =~= out@ + esc_from(
                s@,
                i + 1,
            ));
        }
        i = i + 1;
    }
    out.push(34);
    proof {
        assert(out@ =~= old(out)@ + json_string(s@));
    }
}

/// Appends the pretty-printed object of one failure record to `out`.
fn push_failure_obj(out: &mut Vec<u8>, f: &DownloadFailure)
    ensures
        final(out)@ == old(out)@ + failure_obj(f@),
{
    let open_lit = lit_obj_open();
    push_all(out, &open_lit);
    push_json_string(out, &f.path);
    let mid_lit = lit_obj_mid();
    push_all(out, &mid_lit);
    push_json_string(out, &f.error);
    let close_lit = lit_obj_close();
    push_all(out, &close_lit);
    proof {
        assert(out@ =~= old(out)@ + failure_obj(f@));
    }
}

/// The failure log of one run: every per-entry failure recorded while the
/// batch went on, in the order the records were made.
pub struct FailureLog {
    pub failures: Vec<DownloadFailure>,
}

impl FailureLog {
    /// A fresh log with nothing recorded.
    pub fn new() -> (log: FailureLog)
        ensures
            log.failures@ == Seq::<DownloadFailure>::empty(),
    {
        FailureLog { failures: Vec::new() }
    }

    /// Records that the entry at `path` failed with `error`; the log
    /// grows by exactly that one record and keeps all earlier ones.
    pub fn record(&mut self, path: Vec<u8>, error: Vec<u8>)
        ensures
            final(self).failures@ == old(self).failures@.push(
                (DownloadFailure { path: path, error: error }),
            ),
    {
        self.failures.push(DownloadFailure { path, error });
    }

    /// The durable failure report of the run: the pretty-printed JSON
    /// array of every recorded failure, `[]` when nothing failed.
    pub fn report(&self) -> (r: Vec<u8>)
        ensures
            r@ == report_json(views_of(self.failures@)),
    {
        let n: usize = self.failures.len();
        if n == 0 {
            let empty_lit = lit_empty_array();
            return empty_lit;
        }
        let ghost vs = views_of(self.failures@);
        let mut out: Vec<u8> = Vec::new();
        let open_lit = lit_array_open();
        push_all(&mut out, &open_lit);
        let mut i: usize = 0;
    while i < n
        invariant
            0 < n == self.failures@.len(),
            i <= n,
            vs == views_of(self.failures@),
            out@ + report_items(vs, i as int) == array_open() + report_items(vs, 0),
        decreases n - i,
    {
        let ghost out_pre = out@;
        let ghost sep = (if i > 0 {
            item_sep()
        } else {
            Seq::<u8>::empty()
        });
        if i > 0 {
            let sep_lit = lit_item_sep();
            push_all(&mut out, &sep_lit);
        }
        proof {
            assert(out@ =~= out_pre + sep);
        }
        let ghost out_sep = out@;
        push_failure_obj(&mut out, &self.failures[i]);
        proof {
            assert(vs[i as int] == self.failures@[i as int]@);
            assert(report_items(vs, i as int) == sep + failure_obj(vs[i as int]) + report_items(
                vs,
                i + 1,
            ));
            assert(out@ == out_sep + failure_obj(vs[i as int]));
            assert(out_pre + (sep + failure_obj(vs[i as int]) + report_items(vs, i + 1)) =~= out@
                + report_items(vs, i + 1));
            assert(out_pre + report_items(vs, i as int) =~= out_pre + (sep + failure_obj(
                vs[i as int],
            ) + report_items(vs, i + 1)));
        }
        i = i + 1;
    }
        let close_lit = lit_array_close();
        push_all(&mut out, &close_lit);
        proof {
            assert(report_items(vs, n as int) == Seq::<u8>::empty());
            assert(out@ =~= report_json(vs));
        }
        out
    }
}

/// Builds the bytes of `array_open`.
fn lit_array_open() -> (v: Vec<u8>)
    ensures
        v@ == array_open(),
{
    let mut v: Vec<u8> = Vec::new();
    v.push(91u8);
    v.push(10u8);
    v
}

/// Builds the bytes of `array_close`.
fn lit_array_close() -> (v: Vec<u8>)
    ensures
        v@ == array_close(),
{
    let mut v: Vec<u8> = Vec::new();
    v.push(10u8);
    v.push(93u8);
    v
}

/// Builds the bytes of `empty_array`.
fn lit_empty_array() -> (v: Vec<u8>)
    ensures
        v@ == empty_array(),
{
    let mut v: Vec<u8> = Vec::new();
    v.push(91u8);
    v.push(93u8);
    v
}

/// Builds the bytes of `item_sep`.
fn lit_item_sep() -> (v: Vec<u8>)
    ensures
        v@ == item_sep(),
{
    let mut v: Vec<u8> = Vec::new();
    v.push(44u8);
    v.push(10u8);
    v
}

/// Builds the bytes of `obj_open`.
fn lit_obj_open() -> (v: Vec<u8>)
    ensures
        v@ == obj_open(),
{
    let mut v: Vec<u8> = Vec::new();
    v.push(32u8);
    v.push(32u8);
    v.push(123u8);
    v.push(10u8);
    v.push(32u8);
    v.push(32u8);
    v.push(32u8);
    v.push(32u8);
    v.push(34u8);
    v.push(112u8);
    v.push(97u8);
    v.push(116u8);
    v.push(104u8);
    v.push(34u8);
    v.push(58u8);
    v.push(32u8);
    v
}

/// Builds the bytes of `obj_mid`.
fn lit_obj_mid() -> (v: Vec<u8>)
    ensures
        v@ == obj_mid(),
{
    let mut v: Vec<u8> = Vec::new();
    v.push(44u8);
    v.push(10u8);
    v.push(32u8);
    v.push(32u8);
    v.push(32u8);
    v.push(32u8);
    v.push(34u8);
    v.push(101u8);
    v.push(114u8);
    v.push(114u8);
    v.push(111u8);
    v.push(114u8);
    v.push(34u8);
    v.push(58u8);
    v.push(32u8);
    v
}

/// Builds the bytes of `obj_close`.
fn lit_obj_close() -> (v: Vec<u8>)
    ensures
        v@ == obj_close(),
{
    let mut v: Vec<u8> = Vec::new();
    v.push(10u8);
    v.push(32u8);
    v.push(32u8);
    v.push(125u8);
    v
}
} // verus!
