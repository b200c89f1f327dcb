//! Search configuration, the per-line search state and the search over a
//! whole byte source.
use crate::bytes::{fold, fold_case, trim_terminator, trim_terminator_spec};
use crate::lines::{line_end, lemma_split_lines_len, lemma_split_lines_unfold, split_lines};
use crate::predicate::{check_mode, mode_hit, Mode};
use vstd::prelude::*;
use vstd::utf8::encode_utf8;

verus! {

/// Options of one search. `starts_with` and `ends_with` exclude each other;
/// with neither set a line matches when it contains the pattern.
#[derive(Clone, Copy, Debug, PartialEq, Eq)]
pub struct Config {
    /// Compare lowercase forms of the line and the pattern.
    pub ignore_case: bool,
    /// Do not record line numbers.
    pub no_line_number: bool,
    /// Stop once this many matches are recorded.
    pub max_count: Option<u64>,
    /// Only accept occurrences that begin a word.
    pub starts_with: bool,
    /// Only accept occurrences that end a word.
    pub ends_with: bool,
}

impl Config {
    /// The predicate these options select.
    pub open spec fn spec_mode(self) -> Mode {
        if self.starts_with {
            Mode::StartsWith
        } else if self.ends_with {
            Mode::EndsWith
        } else {
            Mode::Contains
        }
    }

    /// The predicate these options select.
    pub fn mode(&self) -> (r: Mode)
        ensures
            r == self.spec_mode(),
    {
        if self.starts_with {
            Mode::StartsWith
        } else if self.ends_with {
            Mode::EndsWith
        } else {
            Mode::Contains
        }
    }
}

/// The pattern as it is compared: folded when the search ignores case.
pub open spec fn pattern_key(cfg: Config, pat: Seq<u8>) -> Seq<u8> {
    if cfg.ignore_case {
        fold(pat)
    } else {
        pat
    }
}

/// A line as it is compared: folded when the search ignores case.
pub open spec fn line_key(cfg: Config, line: Seq<u8>) -> Seq<u8> {
    if cfg.ignore_case {
        fold(line)
    } else {
        line
    }
}

/// Whether `line` (terminator included) matches `pat` under `cfg`.
pub open spec fn line_hit(cfg: Config, pat: Seq<u8>, line: Seq<u8>) -> bool {
    mode_hit(cfg.spec_mode(), line_key(cfg, line), pattern_key(cfg, pat))
}

/// The 1-based numbers of the lines of `lines` that match, in order.
pub open spec fn hit_numbers(cfg: Config, pat: Seq<u8>, lines: Seq<Seq<u8>>) -> Seq<int>
    decreases lines.len(),
{
    if lines.len() == 0 {
        seq![]
    } else {
        let prev = hit_numbers(cfg, pat, lines.drop_last());
        if line_hit(cfg, pat, lines.last()) {
            prev.push(lines.len() as int)
        } else {
            prev
        }
    }
}

/// The first `max` elements of `s`, or all of `s` when there is no maximum.
pub open spec fn cap(s: Seq<int>, max: Option<u64>) -> Seq<int> {
    match max {
        Some(n) => if s.len() > n {
            s.take(n as int)
        } else {
            s
        },
        None => s,
    }
}

/// The numbers of the lines that a search reports.
pub open spec fn reported(cfg: Config, pat: Seq<u8>, lines: Seq<Seq<u8>>) -> Seq<int> {
    cap(hit_numbers(cfg, pat, lines), cfg.max_count)
}

/// The reported lines, terminators removed, for the given numbers.
pub open spec fn lines_at(lines: Seq<Seq<u8>>, ns: Seq<int>) -> Seq<Seq<u8>> {
    ns.map_values(|k: int| trim_terminator_spec(lines[k - 1]))
}

/// What a search over `lines` reports: the matched lines without their
/// terminators, and their numbers unless line numbers are off.
pub open spec fn outcome(cfg: Config, pat: Seq<u8>, lines: Seq<Seq<u8>>) -> (
    Seq<Seq<u8>>,
    Option<Seq<int>>,
) {
    let ns = reported(cfg, pat, lines);
    (lines_at(lines, ns), if cfg.no_line_number {
        None
    } else {
        Some(ns)
    })
}

/// Every hit number names a line, and hit numbers strictly increase.
pub proof fn lemma_hit_numbers_ordered(cfg: Config, pat: Seq<u8>, lines: Seq<Seq<u8>>)
    ensures
        forall|i: int|
            0 <= i < hit_numbers(cfg, pat, lines).len() ==> 1 <= #[trigger] hit_numbers(
                cfg,
                pat,
                lines,
            )[i] <= lines.len(),
        forall|i: int, j: int|
            0 <= i < j < hit_numbers(cfg, pat, lines).len() ==> hit_numbers(cfg, pat, lines)[i]
                < hit_numbers(cfg, pat, lines)[j],
        hit_numbers(cfg, pat, lines).len() <= lines.len(),
    decreases lines.len(),
{
    if lines.len() > 0 {
        lemma_hit_numbers_ordered(cfg, pat, lines.drop_last());
    }
}

/// The hits of a prefix of the lines are a prefix of the hits of all lines.
pub proof fn lemma_hit_numbers_prefix(
    cfg: Config,
    pat: Seq<u8>,
    a: Seq<Seq<u8>>,
    b: Seq<Seq<u8>>,
)
    ensures
        hit_numbers(cfg, pat, a).len() <= hit_numbers(cfg, pat, a + b).len(),
        hit_numbers(cfg, pat, a + b).take(hit_numbers(cfg, pat, a).len() as int)
            == hit_numbers(cfg, pat, a),
    decreases b.len(),
{
    if b.len() == 0 {
        assert(a + b == a);
        assert(hit_numbers(cfg, pat, a).take(hit_numbers(cfg, pat, a).len() as int)
            == hit_numbers(cfg, pat, a));
    } else {
        lemma_hit_numbers_prefix(cfg, pat, a, b.drop_last());
        assert((a + b).drop_last() == a + b.drop_last());
        let h = hit_numbers(cfg, pat, a + b.drop_last());
        let ha = hit_numbers(cfg, pat, a);
        assert(h.push((a + b).len() as int).take(ha.len() as int) == h.take(ha.len() as int));
    }
}

/// Once the cap is reached by a prefix of the lines, further lines change
/// nothing that is reported.
pub proof fn lemma_outcome_settled(cfg: Config, pat: Seq<u8>, a: Seq<Seq<u8>>, b: Seq<Seq<u8>>)
    requires
        cfg.max_count is Some,
        hit_numbers(cfg, pat, a).len() >= cfg.max_count->0,
    ensures
        outcome(cfg, pat, a + b) == outcome(cfg, pat, a),
{
    lemma_hit_numbers_prefix(cfg, pat, a, b);
    lemma_hit_numbers_ordered(cfg, pat, a);
    let n = cfg.max_count->0 as int;
    let ha = hit_numbers(cfg, pat, a);
    let hab = hit_numbers(cfg, pat, a + b);
    assert(hab.take(n) == ha.take(n)) by {
        assert(hab.take(n) == hab.take(ha.len() as int).take(n));
    }
    let ns = reported(cfg, pat, a);
    assert(reported(cfg, pat, a + b) == ns);
    assert(lines_at(a + b, ns) == lines_at(a, ns)) by {
        assert forall|i: int| 0 <= i < ns.len() implies (a + b)[ns[i] - 1] == a[ns[i] - 1] by {
            assert(ns[i] == ha[i]);
        }
    }
}

/// The error of a configuration that cannot be searched with.
#[derive(Clone, Copy, Debug, PartialEq, Eq)]
pub enum ConfigError {
    /// Both word-start and word-end anchoring were asked for.
    StartsAndEndsWith,
}

impl ConfigError {
    /// A description of the error for people.
    pub fn message(&self) -> (r: &'static str) {
        match self {
            ConfigError::StartsAndEndsWith => "starts-with and ends-with cannot be used together",
        }
    }
}

/// The line numbers of a result: not tracked, or one 1-based number per
/// recorded match.
#[derive(Debug, PartialEq, Eq)]
pub enum LineNumbers {
    /// Line numbers were not asked for.
    Unnumbered,
    /// The number of each recorded match, in the same order.
    Numbered(Vec<u64>),
}

impl View for LineNumbers {
    type V = Option<Seq<int>>;

    open spec fn view(&self) -> Option<Seq<int>> {
        match self {
            LineNumbers::Unnumbered => None,
            LineNumbers::Numbered(v) => Some(v@.map_values(|x: u64| x as int)),
        }
    }
}

/// The matched lines, in source order and without terminators, with their
/// line numbers when these are tracked.
#[derive(Debug)]
pub struct MatchResult {
    pub matches: Vec<Vec<u8>>,
    pub line_numbers: LineNumbers,
}

impl View for MatchResult {
    type V = (Seq<Seq<u8>>, Option<Seq<int>>);

    open spec fn view(&self) -> (Seq<Seq<u8>>, Option<Seq<int>>) {
        (self.matches@.map_values(|v: Vec<u8>| v@), self.line_numbers@)
    }
}

/// A pattern with the options to search for it.
pub struct Matcher {
    /// The bytes of the pattern.
    pub pattern: Vec<u8>,
    pub config: Config,
}

/// The search of `m` over the bytes `src`.
pub open spec fn search_spec(m: Matcher, src: Seq<u8>) -> (Seq<Seq<u8>>, Option<Seq<int>>) {
    outcome(m.config, m.pattern@, split_lines(src))
}

/// Builds a `Matcher`, one option at a time.
pub struct MatcherBuilder {
    pub config: Config,
}

impl MatcherBuilder {
    /// All options off: case-sensitive containment, line numbers on, no cap.
    pub fn new() -> (r: MatcherBuilder)
        ensures
            r.config == (Config {
                ignore_case: false,
                no_line_number: false,
                max_count: None,
                starts_with: false,
                ends_with: false,
            }),
    {
        MatcherBuilder {
            config: Config {
                ignore_case: false,
                no_line_number: false,
                max_count: None,
                starts_with: false,
                ends_with: false,
            },
        }
    }

    pub fn ignore_case(self, yes: bool) -> (r: MatcherBuilder)
        ensures
            r.config == (Config { ignore_case: yes, ..self.config }),
    {
        MatcherBuilder { config: Config { ignore_case: yes, ..self.config } }
    }

    pub fn no_line_number(self, yes: bool) -> (r: MatcherBuilder)
        ensures
            r.config == (Config { no_line_number: yes, ..self.config }),
    {
        MatcherBuilder { config: Config { no_line_number: yes, ..self.config } }
    }

    pub fn max_count(self, max: Option<u64>) -> (r: MatcherBuilder)
        ensures
            r.config == (Config { max_count: max, ..self.config }),
    {
        MatcherBuilder { config: Config { max_count: max, ..self.config } }
    }

    pub fn starts_with(self, yes: bool) -> (r: MatcherBuilder)
        ensures
            r.config == (Config { starts_with: yes, ..self.config }),
    {
        MatcherBuilder { config: Config { starts_with: yes, ..self.config } }
    }

    pub fn ends_with(self, yes: bool) -> (r: MatcherBuilder)
        ensures
            r.config == (Config { ends_with: yes, ..self.config }),
    {
        MatcherBuilder { config: Config { ends_with: yes, ..self.config } }
    }

    /// A matcher for `pattern` with the options set so far; refused when both
    /// word-start and word-end anchoring are set.
    pub fn build(self, pattern: String) -> (r: Result<Matcher, ConfigError>)
        ensures
            self.config.starts_with && self.config.ends_with ==> r == Err::<Matcher, ConfigError>(
                ConfigError::StartsAndEndsWith,
            ),
            !(self.config.starts_with && self.config.ends_with) ==> r is Ok && r->Ok_0.config
                == self.config && r->Ok_0.pattern@ == encode_utf8(pattern@),
    {
        if self.config.starts_with && self.config.ends_with {
            return Err(ConfigError::StartsAndEndsWith);
        }
        let bytes = vstd::slice::slice_to_vec(pattern.as_str().as_bytes());
        Ok(Matcher { pattern: bytes, config: self.config })
    }
}

/// The state of a search fed one line at a time.
pub struct Searcher {
    config: Config,
    key: Vec<u8>,
    line_number: u64,
    matches: Vec<Vec<u8>>,
    numbers: Vec<u64>,
    pattern: Ghost<Seq<u8>>,
    lines: Ghost<Seq<Seq<u8>>>,
}

impl Searcher {
    /// The options of this search.
    pub closed spec fn spec_config(&self) -> Config {
        self.config
    }

    /// The bytes of the pattern searched for.
    pub closed spec fn spec_pattern(&self) -> Seq<u8> {
        self.pattern@
    }

    /// The lines consumed so far, terminators included.
    pub closed spec fn consumed(&self) -> Seq<Seq<u8>> {
        self.lines@
    }

    /// The cap on recorded matches has been reached.
    pub closed spec fn spec_is_full(&self) -> bool {
        match self.config.max_count {
            Some(n) => self.matches@.len() >= n,
            None => false,
        }
    }

    /// The recorded matches and numbers agree with the lines consumed.
    pub closed spec fn wf(&self) -> bool {
        &&& self.key@ == pattern_key(self.config, self.pattern@)
        &&& self.line_number == self.lines@.len()
        &&& self.numbers@.map_values(|x: u64| x as int) == reported(
            self.config,
            self.pattern@,
            self.lines@,
        )
        &&& self.matches@.map_values(|v: Vec<u8>| v@) == lines_at(
            self.lines@,
            reported(self.config, self.pattern@, self.lines@),
        )
        &&& (self.spec_is_full() <==> (match self.config.max_count {
            Some(n) => hit_numbers(self.config, self.pattern@, self.lines@).len() >= n,
            None => false,
        }))
    }

    /// A search for the pattern of `m` with its options, before any line.
    pub fn new(m: &Matcher) -> (r: Searcher)
        ensures
            r.wf(),
            r.spec_config() == m.config,
            r.spec_pattern() == m.pattern@,
            r.consumed() == Seq::<Seq<u8>>::empty(),
    {
        Searcher::with_config(m.pattern.as_slice(), m.config)
    }

    /// A search for `pattern` under `config`, before any line. The pattern is
    /// folded here, once, when the search ignores case.
    pub fn with_config(pattern: &[u8], config: Config) -> (r: Searcher)
        ensures
            r.wf(),
            r.spec_config() == config,
            r.spec_pattern() == pattern@,
            r.consumed() == Seq::<Seq<u8>>::empty(),
    {
        let key = if config.ignore_case {
            fold_case(pattern)
        } else {
            vstd::slice::slice_to_vec(pattern)
        };
        let r = Searcher {
            config,
            key,
            line_number: 0,
            matches: Vec::new(),
            numbers: Vec::new(),
            pattern: Ghost(pattern@),
            lines: Ghost(Seq::empty()),
        };
        proof {
            let e = Seq::<Seq<u8>>::empty();
            assert(hit_numbers(config, pattern@, e) == Seq::<int>::empty());
            assert(reported(config, pattern@, e) == Seq::<int>::empty());
            assert(lines_at(e, Seq::<int>::empty()) == Seq::<Seq<u8>>::empty());
            assert(r.numbers@.map_values(|x: u64| x as int) == Seq::<int>::empty());
            assert(r.matches@.map_values(|v: Vec<u8>| v@) == Seq::<Seq<u8>>::empty());
        }
        r
    }

    /// Whether the cap on recorded matches has been reached.
    pub fn is_full(&self) -> (r: bool)
        ensures
            r == self.spec_is_full(),
    {
        match self.config.max_count {
            Some(n) => self.matches.len() as u64 >= n,
            None => false,
        }
    }

    /// Takes the next line of the source, terminator included. A full search
    /// takes no more lines. Returns whether the search wants further lines.
    pub fn feed(&mut self, line: &[u8]) -> (more: bool)
        requires
            old(self).wf(),
            old(self).consumed().len() < u64::MAX,
        ensures
            final(self).wf(),
            final(self).spec_config() == old(self).spec_config(),
            final(self).spec_pattern() == old(self).spec_pattern(),
            old(self).spec_is_full() ==> final(self).consumed() == old(self).consumed(),
            !old(self).spec_is_full() ==> final(self).consumed() == old(self).consumed().push(
                line@,
            ),
            more == !final(self).spec_is_full(),
    {
        if self.is_full() {
            return false;
        }
        let ghost old_lines = self.lines@;
        let ghost pat = self.pattern@;
        let ghost cfg = self.config;
        let mode = self.config.mode();
        let hit = if self.config.ignore_case {
            let folded = fold_case(line);
            check_mode(mode, folded.as_slice(), self.key.as_slice())
        } else {
            check_mode(mode, line, self.key.as_slice())
        };
        self.line_number = self.line_number + 1;
        self.lines = Ghost(old_lines.push(line@));
        let ghost new_lines = self.lines@;
        proof {
            assert(new_lines.drop_last() == old_lines);
            lemma_hit_numbers_ordered(cfg, pat, old_lines);
        }
        let ghost old_hits = hit_numbers(cfg, pat, old_lines);
        if hit {
            let ghost n_old_m = self.matches@;
            let ghost n_old_n = self.numbers@;
            let stored = trim_terminator(line);
            self.matches.push(stored);
            self.numbers.push(self.line_number);
            proof {
                let ns = old_hits.push(new_lines.len() as int);
                assert(self.numbers@.map_values(|x: u64| x as int) == ns);
                assert(lines_at(new_lines, old_hits) == lines_at(old_lines, old_hits));
                assert(lines_at(new_lines, ns) == lines_at(new_lines, old_hits).push(
                    trim_terminator_spec(line@),
                ));
                assert(self.matches@.map_values(|v: Vec<u8>| v@) == n_old_m.map_values(
                    |v: Vec<u8>| v@,
                ).push(trim_terminator_spec(line@)));
                assert(self.matches@.map_values(|v: Vec<u8>| v@) == lines_at(new_lines, ns));
            }
        } else {
            proof {
                assert(lines_at(new_lines, old_hits) == lines_at(old_lines, old_hits));
            }
        }
        !self.is_full()
    }

    /// The result of the search over the lines consumed.
    pub fn finish(self) -> (r: MatchResult)
        requires
            self.wf(),
        ensures
            r@ == outcome(self.spec_config(), self.spec_pattern(), self.consumed()),
    {
        let line_numbers = if self.config.no_line_number {
            LineNumbers::Unnumbered
        } else {
            LineNumbers::Numbered(self.numbers)
        };
        MatchResult { matches: self.matches, line_numbers }
    }
}

impl Matcher {
    /// Searches the lines of `source` and reports the matches.
    pub fn get_matches(&self, source: &[u8]) -> (r: MatchResult)
        ensures
            r@ == search_spec(*self, source@),
    {
        search_source(self.pattern.as_slice(), self.config, source)
    }
}

/// Searches the lines of `source` for `pattern` under `config`, reading no
/// line past the one that fills the cap.
pub fn search_source(pattern: &[u8], config: Config, source: &[u8]) -> (r: MatchResult)
    ensures
        r@ == outcome(config, pattern@, split_lines(source@)),
{
    let mut s = Searcher::with_config(pattern, config);
    let n = source.len();
    let mut pos: usize = 0;
    let mut more = !s.is_full();
    proof {
        assert(source@.skip(0) == source@);
        lemma_split_lines_len(source@);
    }
    while more && pos < n
        invariant
            s.wf(),
            s.spec_config() == config,
            s.spec_pattern() == pattern@,
            pos <= n == source@.len(),
            s.consumed() + split_lines(source@.skip(pos as int)) == split_lines(source@),
            split_lines(source@).len() <= n,
            more == !s.spec_is_full(),
        decreases n - pos,
    {
        let e = line_end(source, pos);
        let line = vstd::slice::slice_subrange(source, pos, e);
        proof {
            let rest = source@.skip(pos as int);
            lemma_split_lines_unfold(rest);
            assert(rest.take(e - pos) == line@);
            assert(rest.skip(e - pos) == source@.skip(e as int));
            assert(s.consumed() + split_lines(rest) == s.consumed().push(line@) + split_lines(
                source@.skip(e as int),
            ));
        }
        more = s.feed(line);
        pos = e;
    }
    proof {
        let all = split_lines(source@);
        let rest = split_lines(source@.skip(pos as int));
        if pos >= n {
            assert(source@.skip(pos as int).len() == 0);
            assert(rest == Seq::<Seq<u8>>::empty());
            assert(s.consumed() + rest == s.consumed());
        } else {
            lemma_outcome_settled(config, pattern@, s.consumed(), rest);
        }
    }
    s.finish()
}

} // verus!
