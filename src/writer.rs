//! Rendering a search result as text: one line per match, preceded by its
//! line number and a colon when line numbers are on.
use crate::matcher::{Config, LineNumbers, MatchResult};
use bstr::ByteSlice;
use vstd::prelude::*;

verus! {

/// The bytes of `b` read as UTF-8, each invalid sequence replaced by U+FFFD.
pub uninterp spec fn lossy_utf8(b: Seq<u8>) -> Seq<u8>;

/// Relies on bstr's `ByteSlice::to_str_lossy`: the UTF-8 text of `b` with
/// invalid sequences replaced, a function of its bytes alone.
#[verifier::external_body]
fn to_utf8_lossy(b: &[u8]) -> (r: Vec<u8>)
    ensures
        r@ == lossy_utf8(b@),
{
    b.to_str_lossy().as_bytes().to_vec()
}

/// The decimal digits of `n`, most significant first.
pub open spec fn decimal(n: nat) -> Seq<u8>
    decreases n,
{
    if n < 10 {
        seq![(48 + n) as u8]
    } else {
        decimal(n / 10).push((48 + n % 10) as u8)
    }
}

/// One rendered match with its line number.
pub open spec fn numbered_entry(n: int, line: Seq<u8>) -> Seq<u8> {
    decimal(n as nat) + seq![58u8] + lossy_utf8(line) + seq![10u8]
}

/// One rendered match without line number.
pub open spec fn plain_entry(line: Seq<u8>) -> Seq<u8> {
    lossy_utf8(line) + seq![10u8]
}

/// The first `k` matches of `ms`, paired with the numbers `ns`, rendered.
pub open spec fn render_numbered(ms: Seq<Seq<u8>>, ns: Seq<int>, k: nat) -> Seq<u8>
    decreases k,
{
    if k == 0 {
        seq![]
    } else {
        render_numbered(ms, ns, (k - 1) as nat) + numbered_entry(ns[k - 1], ms[k - 1])
    }
}

/// The first `k` matches of `ms` rendered without numbers.
pub open spec fn render_plain(ms: Seq<Seq<u8>>, k: nat) -> Seq<u8>
    decreases k,
{
    if k == 0 {
        seq![]
    } else {
        render_plain(ms, (k - 1) as nat) + plain_entry(ms[k - 1])
    }
}

/// The text of a result: numbered lines when line numbers are on (matches
/// and numbers taken pairwise), plain lines otherwise.
pub open spec fn render(r: (Seq<Seq<u8>>, Option<Seq<int>>), no_line_number: bool) -> Seq<u8> {
    if no_line_number {
        render_plain(r.0, r.0.len())
    } else {
        match r.1 {
            Some(ns) => render_numbered(
                r.0,
                ns,
                if r.0.len() <= ns.len() {
                    r.0.len()
                } else {
                    ns.len()
                },
            ),
            None => seq![],
        }
    }
}

/// Appends the decimal digits of `n` to `out`.
fn push_decimal(out: &mut Vec<u8>, n: u64)
    ensures
        final(out)@ == old(out)@ + decimal(n as nat),
    decreases n,
{
    if n >= 10 {
        push_decimal(out, n / 10);
    }
    out.push((48 + n % 10) as u8);
}

/// Collects rendered output.
pub struct Writer {
    pub wrt: Vec<u8>,
}

impl Writer {
    /// A writer with nothing written.
    pub fn new() -> (r: Writer)
        ensures
            r.wrt@ == Seq::<u8>::empty(),
    {
        Writer { wrt: Vec::new() }
    }

    /// Appends the rendering of `match_result` under `config`.
    pub fn print_lines_iter(&mut self, match_result: MatchResult, config: &Config)
        ensures
            final(self).wrt@ == old(self).wrt@ + render(match_result@, config.no_line_number),
    {
        let ghost r = match_result@;
        let ghost start = self.wrt@;
        let matches = &match_result.matches;
        if config.no_line_number {
            let mut i: usize = 0;
            while i < matches.len()
                invariant
                    i <= matches@.len(),
                    r.0 == matches@.map_values(|v: Vec<u8>| v@),
                    self.wrt@ == start + render_plain(r.0, i as nat),
                decreases matches@.len() - i,
            {
                let mut text = to_utf8_lossy(matches[i].as_slice());
                let ghost before = self.wrt@;
                self.wrt.append(&mut text);
                self.wrt.push(10u8);
                proof {
                    assert(r.0[i as int] == matches@[i as int]@);
                    assert(self.wrt@ == start + render_plain(r.0, (i + 1) as nat));
                }
                i += 1;
            }
        } else {
            match &match_result.line_numbers {
                LineNumbers::Numbered(numbers) => {
                    let k = if matches.len() <= numbers.len() {
                        matches.len()
                    } else {
                        numbers.len()
                    };
                    let mut i: usize = 0;
                    while i < k
                        invariant
                            i <= k <= matches@.len(),
                            k <= numbers@.len(),
                            r.0 == matches@.map_values(|v: Vec<u8>| v@),
                            r.1 == Some(numbers@.map_values(|x: u64| x as int)),
                            self.wrt@ == start + render_numbered(
                                r.0,
                                numbers@.map_values(|x: u64| x as int),
                                i as nat,
                            ),
                        decreases k - i,
                    {
                        let ghost before = self.wrt@;
                        push_decimal(&mut self.wrt, numbers[i]);
                        self.wrt.push(58u8);
                        let mut text = to_utf8_lossy(matches[i].as_slice());
                        self.wrt.append(&mut text);
                        self.wrt.push(10u8);
                        proof {
                            assert(r.0[i as int] == matches@[i as int]@);
                            let ns = numbers@.map_values(|x: u64| x as int);
                            assert(ns[i as int] == numbers@[i as int] as int);
                            assert(self.wrt@ == before + numbered_entry(ns[i as int], r.0[i as int]));
                            assert(self.wrt@ == start + render_numbered(r.0, ns, (i + 1) as nat));
                        }
                        i += 1;
                    }
                },
                LineNumbers::Unnumbered => {
                    assert(self.wrt@ == start + Seq::<u8>::empty());
                },
            }
        }
    }
}

} // verus!
