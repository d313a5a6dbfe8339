//! The run's configuration and the reading of command-line arguments.
use vstd::prelude::*;
use crate::pattern::{compile_pattern, is_search_text, Pattern};

verus! {

/// Worker threads when none are asked for.
pub const DEFAULT_THREADS: usize = 4;

pub open spec fn is_digit(c: char) -> bool {
    '0' <= c && c <= '9'
}

/// The value of a string of decimal digits.
pub open spec fn digits_value(s: Seq<char>) -> nat
    decreases s.len(),
{
    if s.len() == 0 {
        0
    } else {
        digits_value(s.drop_last()) * 10 + (s.last() as nat - '0' as nat) as nat
    }
}

/// The text of a number without its optional leading `+`.
pub open spec fn unsigned_body(s: Seq<char>) -> Seq<char> {
    if s.len() > 0 && s[0] == '+' {
        s.subrange(1, s.len() as int)
    } else {
        s
    }
}

/// An unsigned decimal number: an optional `+`, then one or more digits.
pub open spec fn decimal_value(s: Seq<char>) -> Option<nat> {
    let body = unsigned_body(s);
    if body.len() > 0 && forall|i: int| 0 <= i < body.len() ==> #[trigger] is_digit(body[i]) {
        Some(digits_value(body))
    } else {
        None
    }
}

/// The number `s` writes, where it fits in a `u64`.
pub open spec fn u64_value(s: Seq<char>) -> Option<nat> {
    match decimal_value(s) {
        Some(v) => if v <= u64::MAX { Some(v) } else { None },
        None => None,
    }
}

proof fn lemma_digits_prefix(s: Seq<char>, i: int)
    requires
        0 <= i <= s.len(),
        forall|j: int| 0 <= j < s.len() ==> #[trigger] is_digit(s[j]),
    ensures
        digits_value(s.subrange(0, i)) <= digits_value(s),
    decreases s.len(),
{
    if i < s.len() {
        let t = s.drop_last();
        assert(t.subrange(0, i) == s.subrange(0, i));
        assert forall|j: int| 0 <= j < t.len() implies #[trigger] is_digit(t[j]) by {
            assert(t[j] == s[j]);
        }
        lemma_digits_prefix(t, i);
    } else {
        assert(s.subrange(0, i) == s);
    }
}

/// Reads an unsigned decimal number, as `u64::from_str` does.
pub fn parse_u64(s: &str) -> (r: Option<u64>)
    ensures
        r matches Some(v) ==> u64_value(s@) == Some(v as nat),
        r is None ==> u64_value(s@) is None,
{
    let n = s.unicode_len();
    let start: usize = if n > 0 && s.get_char(0) == '+' { 1 } else { 0 };
    let ghost body = unsigned_body(s@);
    if start == n {
        return None;
    }
    let mut acc: u64 = 0;
    let mut i: usize = start;
    while i < n
        invariant
            n == s@.len(),
            start <= i <= n,
            body == s@.subrange(start as int, n as int),
            body == unsigned_body(s@),
            forall|j: int| 0 <= j < i - start ==> #[trigger] is_digit(body[j]),
            acc == digits_value(body.subrange(0, i - start)),
        decreases n - i,
    {
        let c = s.get_char(i);
        assert(body[i - start] == c);
        if !('0' <= c && c <= '9') {
            assert(!is_digit(body[i - start]));
            return None;
        }
        let d: u64 = (c as u64) - ('0' as u64);
        assert(body.subrange(0, i + 1 - start).drop_last() == body.subrange(0, i - start));
        if acc > 1844674407370955161u64 || (acc == 1844674407370955161u64 && d > 5) {
            assert(digits_value(body.subrange(0, i + 1 - start)) == acc * 10 + d);
            assert(acc * 10 + d > u64::MAX) by (nonlinear_arith)
                requires
                    acc > 1844674407370955161u64 || (acc == 1844674407370955161u64 && d > 5),
            ;
            proof {
                if forall|j: int| 0 <= j < body.len() ==> #[trigger] is_digit(body[j]) {
                    lemma_digits_prefix(body, i + 1 - start);
                }
            }
            return None;
        }
        acc = acc * 10 + d;
        i = i + 1;
    }
    assert(body.subrange(0, n - start) == body);
    Some(acc)
}

/// Tells whether two texts are equal.
fn same_text(a: &str, b: &str) -> (r: bool)
    ensures
        r == (a@ == b@),
{
    let n = a.unicode_len();
    if n != b.unicode_len() {
        return false;
    }
    let mut i: usize = 0;
    while i < n
        invariant
            n == a@.len(),
            n == b@.len(),
            i <= n,
            forall|j: int| 0 <= j < i ==> a@[j] == b@[j],
        decreases n - i,
    {
        if a.get_char(i) != b.get_char(i) {
            return false;
        }
        i = i + 1;
    }
    assert(a@ =~= b@);
    true
}

/// What a command line can be refused for.
#[derive(Clone, Copy, PartialEq, Eq, Debug, Structural)]
pub enum ArgError {
    /// `-t`/`--threads` ends the command line.
    MissingThreads,
    /// The value of `--threads` is not a number.
    InvalidThreads,
    /// `--threads 0`.
    ZeroThreads,
    /// `-s`/`--search` ends the command line.
    MissingSearch,
    /// `-c`/`--count` ends the command line.
    MissingCount,
    /// The value of `--count` is not a number.
    InvalidCount,
    /// `--count 0`.
    ZeroCount,
    /// The argument at this position is not known.
    Unknown(usize),
    /// No `--search` was given.
    NoSearch,
    /// A searched text is empty or leaves the Base64 alphabet.
    InvalidSearch,
}

/// The settings read from a command line, before the patterns are checked.
pub struct Settings {
    pub threads: nat,
    pub searches: Seq<Seq<char>>,
    pub count: nat,
    pub quiet: bool,
    pub affinity: bool,
}

/// What a command line asks for.
pub enum Reading {
    Help,
    Run(Settings),
}

pub open spec fn default_settings() -> Settings {
    Settings { threads: DEFAULT_THREADS as nat, searches: seq![], count: 1, quiet: false, affinity: false }
}

/// Reads the arguments from position `i` on, with settings `st` so far.
pub open spec fn scan(args: Seq<Seq<char>>, i: nat, st: Settings) -> Result<Reading, ArgError>
    decreases args.len() - i,
{
    if i >= args.len() {
        Ok(Reading::Run(st))
    } else {
        let a = args[i as int];
        if a == "-t"@ || a == "--threads"@ {
            if i + 1 >= args.len() {
                Err(ArgError::MissingThreads)
            } else {
                match u64_value(args[i + 1 as int]) {
                    None => Err(ArgError::InvalidThreads),
                    Some(v) => if v > usize::MAX {
                        Err(ArgError::InvalidThreads)
                    } else if v == 0 {
                        Err(ArgError::ZeroThreads)
                    } else {
                        scan(args, i + 2, Settings { threads: v, ..st })
                    },
                }
            }
        } else if a == "-s"@ || a == "--search"@ {
            if i + 1 >= args.len() {
                Err(ArgError::MissingSearch)
            } else {
                scan(args, i + 2, Settings { searches: st.searches.push(args[i + 1 as int]), ..st })
            }
        } else if a == "-c"@ || a == "--count"@ {
            if i + 1 >= args.len() {
                Err(ArgError::MissingCount)
            } else {
                match u64_value(args[i + 1 as int]) {
                    None => Err(ArgError::InvalidCount),
                    Some(v) => if v == 0 {
                        Err(ArgError::ZeroCount)
                    } else {
                        scan(args, i + 2, Settings { count: v, ..st })
                    },
                }
            }
        } else if a == "-q"@ || a == "--quiet"@ {
            scan(args, i + 1, Settings { quiet: true, ..st })
        } else if a == "--affinity"@ {
            scan(args, i + 1, Settings { affinity: true, ..st })
        } else if a == "-h"@ || a == "--help"@ {
            Ok(Reading::Help)
        } else {
            Err(ArgError::Unknown(i as usize))
        }
    }
}

/// What the command line `args` (the program's name first) asks for: help,
/// a refusal, or a run whose searched texts are all valid.
pub open spec fn read_args(args: Seq<Seq<char>>) -> Result<Reading, ArgError> {
    match scan(args, 1, default_settings()) {
        Ok(Reading::Run(st)) => if st.searches.len() == 0 {
            Err(ArgError::NoSearch)
        } else if exists|j: int| 0 <= j < st.searches.len() && !is_search_text(#[trigger] st.searches[j]) {
            Err(ArgError::InvalidSearch)
        } else {
            Ok(Reading::Run(st))
        },
        other => other,
    }
}

/// `a` is one of the two spellings of the quiet flag.
pub open spec fn is_quiet_flag(a: Seq<char>) -> bool {
    a == "-q"@ || a == "--quiet"@
}

/// The arguments `s` with every quiet flag left out.
pub open spec fn drop_quiet(s: Seq<Seq<char>>) -> Seq<Seq<char>>
    decreases s.len(),
{
    if s.len() == 0 {
        s
    } else if is_quiet_flag(s[0]) {
        drop_quiet(s.drop_first())
    } else {
        seq![s[0]] + drop_quiet(s.drop_first())
    }
}

/// The characters of each flag.
proof fn reveal_flags()
    ensures
        "-t"@ == seq!['-', 't'],
        "--threads"@ == seq!['-', '-', 't', 'h', 'r', 'e', 'a', 'd', 's'],
        "-s"@ == seq!['-', 's'],
        "--search"@ == seq!['-', '-', 's', 'e', 'a', 'r', 'c', 'h'],
        "-c"@ == seq!['-', 'c'],
        "--count"@ == seq!['-', '-', 'c', 'o', 'u', 'n', 't'],
        "-q"@ == seq!['-', 'q'],
        "--quiet"@ == seq!['-', '-', 'q', 'u', 'i', 'e', 't'],
        "--affinity"@ == seq!['-', '-', 'a', 'f', 'f', 'i', 'n', 'i', 't', 'y'],
        "-h"@ == seq!['-', 'h'],
        "--help"@ == seq!['-', '-', 'h', 'e', 'l', 'p'],
{
    reveal_strlit("-t");
    reveal_strlit("--threads");
    reveal_strlit("-s");
    reveal_strlit("--search");
    reveal_strlit("-c");
    reveal_strlit("--count");
    reveal_strlit("-q");
    reveal_strlit("--quiet");
    reveal_strlit("--affinity");
    reveal_strlit("-h");
    reveal_strlit("--help");
}

/// A quiet flag is neither a number nor a searchable text.
proof fn lemma_quiet_flag_is_no_value(v: Seq<char>)
    requires
        is_quiet_flag(v),
    ensures
        u64_value(v) is None,
        !is_search_text(v),
{
    reveal_flags();
    assert(v[0] == '-');
    assert(!crate::pattern::is_b64_symbol(v[0]));
    if decimal_value(v) is Some {
        assert(unsigned_body(v) == v);
        assert(is_digit(unsigned_body(v)[0]));
    }
}

/// The searched texts collected so far are kept, in order, by the rest of
/// the scan.
proof fn lemma_scan_keeps_searches(a: Seq<Seq<char>>, i: nat, st: Settings, s1: Settings)
    requires
        scan(a, i, st) == Ok::<Reading, ArgError>(Reading::Run(s1)),
    ensures
        st.searches.len() <= s1.searches.len(),
        forall|k: int| 0 <= k < st.searches.len() ==> s1.searches[k] == st.searches[k],
    decreases a.len() - i,
{
    if i < a.len() {
        let x = a[i as int];
        if x == "-t"@ || x == "--threads"@ {
            if let Some(v) = u64_value(a[i + 1 as int]) {
                lemma_scan_keeps_searches(a, i + 2, Settings { threads: v, ..st }, s1);
            }
        } else if x == "-s"@ || x == "--search"@ {
            let st2 = Settings { searches: st.searches.push(a[i + 1 as int]), ..st };
            lemma_scan_keeps_searches(a, i + 2, st2, s1);
        } else if x == "-c"@ || x == "--count"@ {
            if let Some(v) = u64_value(a[i + 1 as int]) {
                lemma_scan_keeps_searches(a, i + 2, Settings { count: v, ..st }, s1);
            }
        } else if x == "-q"@ || x == "--quiet"@ {
            lemma_scan_keeps_searches(a, i + 1, Settings { quiet: true, ..st }, s1);
        } else if x == "--affinity"@ {
            lemma_scan_keeps_searches(a, i + 1, Settings { affinity: true, ..st }, s1);
        }
    }
}

proof fn lemma_scan_without_quiet(
    a: Seq<Seq<char>>,
    i: nat,
    st: Settings,
    b: Seq<Seq<char>>,
    j: nat,
    st2: Settings,
    s1: Settings,
)
    requires
        i <= a.len(),
        j <= b.len(),
        b.subrange(j as int, b.len() as int) == drop_quiet(a.subrange(i as int, a.len() as int)),
        scan(a, i, st) == Ok::<Reading, ArgError>(Reading::Run(s1)),
        forall|k: int| 0 <= k < s1.searches.len() ==> is_search_text(#[trigger] s1.searches[k]),
        st2 == (Settings { quiet: st2.quiet, ..st }),
    ensures
        scan(b, j, st2) == Ok::<Reading, ArgError>(Reading::Run(Settings { quiet: st2.quiet, ..s1 })),
    decreases a.len() - i,
{
    reveal_flags();
    let t = a.subrange(i as int, a.len() as int);
    let u = b.subrange(j as int, b.len() as int);
    if i == a.len() {
        assert(t.len() == 0);
        assert(u.len() == 0);
        return;
    }
    let x = a[i as int];
    assert(t[0] == x);
    assert(t.drop_first() =~= a.subrange(i + 1 as int, a.len() as int));
    if is_quiet_flag(x) {
        lemma_scan_without_quiet(a, i + 1, Settings { quiet: true, ..st }, b, j, st2, s1);
        return;
    }
    let r1 = drop_quiet(a.subrange(i + 1 as int, a.len() as int));
    assert(u == seq![x] + r1);
    assert(u.len() >= 1);
    assert(b[j as int] == x) by {
        assert(u[0] == b[j as int]);
    }
    assert(b.subrange(j + 1 as int, b.len() as int) =~= r1) by {
        assert(b.subrange(j + 1 as int, b.len() as int) =~= u.drop_first());
    }
    let takes_value = x == "-t"@ || x == "--threads"@ || x == "-s"@ || x == "--search"@ || x
        == "-c"@ || x == "--count"@;
    if takes_value {
        if i + 1 >= a.len() {
            return;
        }
        let v = a[i + 1 as int];
        let st_next = if x == "-t"@ || x == "--threads"@ {
            Settings { threads: u64_value(v).unwrap(), ..st }
        } else if x == "-s"@ || x == "--search"@ {
            Settings { searches: st.searches.push(v), ..st }
        } else {
            Settings { count: u64_value(v).unwrap(), ..st }
        };
        if is_quiet_flag(v) {
            lemma_quiet_flag_is_no_value(v);
            if x == "-s"@ || x == "--search"@ {
                lemma_scan_keeps_searches(a, i + 2, st_next, s1);
                assert(s1.searches[st.searches.len() as int] == v);
            }
            return;
        }
        let ta = a.subrange(i + 1 as int, a.len() as int);
        assert(ta[0] == v);
        assert(ta.drop_first() =~= a.subrange(i + 2 as int, a.len() as int));
        let r2 = drop_quiet(a.subrange(i + 2 as int, a.len() as int));
        assert(r1 == seq![v] + r2);
        assert(b[j + 1 as int] == v) by {
            assert(b.subrange(j + 1 as int, b.len() as int)[0] == b[j + 1 as int]);
        }
        assert(b.subrange(j + 2 as int, b.len() as int) =~= r2) by {
            assert(b.subrange(j + 2 as int, b.len() as int) =~= b.subrange(j + 1 as int, b.len() as int).drop_first());
        }
        lemma_scan_without_quiet(a, i + 2, st_next, b, j + 2, Settings { quiet: st2.quiet, ..st_next }, s1);
    } else if x == "--affinity"@ {
        lemma_scan_without_quiet(
            a,
            i + 1,
            Settings { affinity: true, ..st },
            b,
            j + 1,
            Settings { affinity: true, ..st2 },
            s1,
        );
    }
}

/// Leaving out every `-q`/`--quiet` from a command line that asks for a run
/// gives the same settings, with only the quiet flag cleared: quiet mode
/// changes nothing but whether the periodic report is printed.
pub proof fn lemma_quiet_only_sets_flag(args: Seq<Seq<char>>, st: Settings)
    requires
        args.len() >= 1,
        read_args(args) == Ok::<Reading, ArgError>(Reading::Run(st)),
    ensures
        read_args(seq![args[0]] + drop_quiet(args.subrange(1, args.len() as int)))
            == Ok::<Reading, ArgError>(Reading::Run(Settings { quiet: false, ..st })),
{
    let b = seq![args[0]] + drop_quiet(args.subrange(1, args.len() as int));
    assert(b.subrange(1, b.len() as int) =~= drop_quiet(args.subrange(1, args.len() as int)));
    let s1 = match scan(args, 1, default_settings()) {
        Ok(Reading::Run(s)) => s,
        _ => st,
    };
    assert(s1 == st);
    assert forall|k: int| 0 <= k < st.searches.len() implies is_search_text(#[trigger] st.searches[k]) by {
        if !is_search_text(st.searches[k]) {
            assert(exists|j: int| 0 <= j < st.searches.len() && !is_search_text(#[trigger] st.searches[j]));
        }
    }
    lemma_scan_without_quiet(args, 1, default_settings(), b, 1, default_settings(), st);
}

/// The configuration of a run.
pub struct Config {
    /// Worker threads, at least one.
    pub threads: usize,
    /// The compiled search patterns, at least one.
    pub patterns: Vec<Pattern>,
    /// Matches to find before stopping, at least one.
    pub count: u64,
    /// No periodic report.
    pub quiet: bool,
    /// Pin each worker to a CPU core.
    pub affinity: bool,
}

impl Config {
    /// The configuration holds the settings `st`, each pattern compiled from
    /// the searched text at its position.
    pub open spec fn holds(&self, st: Settings) -> bool {
        &&& self.threads as nat == st.threads
        &&& self.count as nat == st.count
        &&& self.quiet == st.quiet
        &&& self.affinity == st.affinity
        &&& self.patterns@.len() == st.searches.len()
        &&& forall|j: int| 0 <= j < st.searches.len() ==> #[trigger] self.patterns@[j].compiled_from(st.searches[j])
    }
}

/// What a command line asks for, in executable form.
pub enum Command {
    Help,
    Run(Config),
}

pub open spec fn texts_of_args(args: Seq<String>) -> Seq<Seq<char>> {
    args.map_values(|s: String| s@)
}


/// Settings read so far, as the scan describes them.
pub open spec fn settings_of(
    threads: usize,
    searches: Seq<String>,
    count: u64,
    quiet: bool,
    affinity: bool,
) -> Settings {
    Settings {
        threads: threads as nat,
        searches: texts_of_args(searches),
        count: count as nat,
        quiet,
        affinity,
    }
}

fn compile_all(searches: &Vec<String>) -> (r: Option<Vec<Pattern>>)
    ensures
        r is Some <==> forall|j: int| 0 <= j < searches@.len() ==> is_search_text(#[trigger] searches@[j]@),
        r matches Some(ps) ==> ps@.len() == searches@.len() && forall|j: int|
            0 <= j < searches@.len() ==> #[trigger] ps@[j].compiled_from(searches@[j]@),
{
    let mut ps: Vec<Pattern> = Vec::new();
    let mut i: usize = 0;
    while i < searches.len()
        invariant
            i <= searches@.len(),
            ps@.len() == i,
            forall|j: int| 0 <= j < i ==> is_search_text(#[trigger] searches@[j]@),
            forall|j: int| 0 <= j < i ==> #[trigger] ps@[j].compiled_from(searches@[j]@),
        decreases searches@.len() - i,
    {
        match compile_pattern(searches[i].as_str()) {
            Some(p) => ps.push(p),
            None => return None,
        }
        i = i + 1;
    }
    Some(ps)
}

/// Reads a command line, the program's name first: `-t/--threads N`,
/// `-s/--search STR` (repeated), `-c/--count C`, `-q/--quiet`, `--affinity`,
/// `-h/--help`.
pub fn parse_args(args: &Vec<String>) -> (r: Result<Command, ArgError>)
    ensures
        match read_args(texts_of_args(args@)) {
            Ok(Reading::Help) => r matches Ok(Command::Help),
            Ok(Reading::Run(st)) => r matches Ok(Command::Run(c)) && c.holds(st),
            Err(e) => r == Err::<Command, ArgError>(e),
        },
{
    let ghost a = texts_of_args(args@);
    let mut threads: usize = DEFAULT_THREADS;
    let mut searches: Vec<String> = Vec::new();
    let mut count: u64 = 1;
    let mut quiet: bool = false;
    let mut affinity: bool = false;
    let mut i: usize = 1;
    assert(settings_of(threads, searches@, count, quiet, affinity) == default_settings()) by {
        assert(texts_of_args(searches@) =~= seq![]);
    }
    while i < args.len()
        invariant
            a == texts_of_args(args@),
            1 <= i,
            scan(a, 1, default_settings()) == scan(
                a,
                i as nat,
                settings_of(threads, searches@, count, quiet, affinity),
            ),
        decreases args@.len() - i,
    {
        let ghost st = settings_of(threads, searches@, count, quiet, affinity);
        let arg = args[i].as_str();
        assert(arg@ == a[i as int]);
        if same_text(arg, "-t") || same_text(arg, "--threads") {
            if i + 1 >= args.len() {
                return Err(ArgError::MissingThreads);
            }
            assert(args[i + 1]@ == a[i + 1]);
            match parse_u64(args[i + 1].as_str()) {
                None => {
                    return Err(ArgError::InvalidThreads);
                },
                Some(v) => {
                    if v > usize::MAX as u64 {
                        return Err(ArgError::InvalidThreads);
                    }
                    if v == 0 {
                        return Err(ArgError::ZeroThreads);
                    }
                    threads = v as usize;
                },
            }
            i = i + 2;
        } else if same_text(arg, "-s") || same_text(arg, "--search") {
            if i + 1 >= args.len() {
                return Err(ArgError::MissingSearch);
            }
            let ghost before = searches@;
            searches.push(args[i + 1].clone());
            assert(texts_of_args(searches@) =~= texts_of_args(before).push(a[i + 1]));
            i = i + 2;
        } else if same_text(arg, "-c") || same_text(arg, "--count") {
            if i + 1 >= args.len() {
                return Err(ArgError::MissingCount);
            }
            assert(args[i + 1]@ == a[i + 1]);
            match parse_u64(args[i + 1].as_str()) {
                None => {
                    return Err(ArgError::InvalidCount);
                },
                Some(v) => {
                    if v == 0 {
                        return Err(ArgError::ZeroCount);
                    }
                    count = v;
                },
            }
            i = i + 2;
        } else if same_text(arg, "-q") || same_text(arg, "--quiet") {
            quiet = true;
            i = i + 1;
        } else if same_text(arg, "--affinity") {
            affinity = true;
            i = i + 1;
        } else if same_text(arg, "-h") || same_text(arg, "--help") {
            return Ok(Command::Help);
        } else {
            return Err(ArgError::Unknown(i));
        }
    }
    let ghost st = settings_of(threads, searches@, count, quiet, affinity);
    assert(scan(a, i as nat, st) == Ok::<Reading, ArgError>(Reading::Run(st)));
    assert(forall|j: int| 0 <= j < st.searches.len() ==> #[trigger] st.searches[j] == searches@[j]@);
    if searches.len() == 0 {
        return Err(ArgError::NoSearch);
    }
    match compile_all(&searches) {
        None => {
            let ghost j = choose|j: int|
                !(0 <= j < searches@.len() ==> is_search_text(#[trigger] searches@[j]@));
            assert(st.searches[j] == searches@[j]@);
            assert(exists|j: int| 0 <= j < st.searches.len() && !is_search_text(#[trigger] st.searches[j]));
            Err(ArgError::InvalidSearch)
        },
        Some(patterns) => Ok(Command::Run(Config { threads, patterns, count, quiet, affinity })),
    }
}


impl ArgError {
    /// The message for this refusal; `args` is the command line it came from.
    pub fn message(&self, args: &Vec<String>) -> (r: String)
        requires
            self matches ArgError::Unknown(i) ==> i < args@.len(),
        ensures
            *self == ArgError::MissingThreads ==> r@ == "missing value for --threads"@,
            *self == ArgError::InvalidThreads ==> r@ == "invalid threads value"@,
            *self == ArgError::ZeroThreads ==> r@ == "threads must be > 0"@,
            *self == ArgError::MissingSearch ==> r@ == "missing value for --search"@,
            *self == ArgError::MissingCount ==> r@ == "missing value for --count"@,
            *self == ArgError::InvalidCount ==> r@ == "invalid count value"@,
            *self == ArgError::ZeroCount ==> r@ == "count must be > 0"@,
            self matches ArgError::Unknown(i) ==> r@ == "unknown argument: "@ + args@[i as int]@,
            *self == ArgError::NoSearch ==> r@
                == "--search is required (can be specified multiple times)"@,
            *self == ArgError::InvalidSearch ==> r@
                == "search must contain only Base64 chars [A-Za-z0-9+/]"@,
    {
        match self {
            ArgError::MissingThreads => String::from_str("missing value for --threads"),
            ArgError::InvalidThreads => String::from_str("invalid threads value"),
            ArgError::ZeroThreads => String::from_str("threads must be > 0"),
            ArgError::MissingSearch => String::from_str("missing value for --search"),
            ArgError::MissingCount => String::from_str("missing value for --count"),
            ArgError::InvalidCount => String::from_str("invalid count value"),
            ArgError::ZeroCount => String::from_str("count must be > 0"),
            ArgError::Unknown(i) => String::from_str("unknown argument: ").concat(
                args[*i].as_str(),
            ),
            ArgError::NoSearch => String::from_str(
                "--search is required (can be specified multiple times)",
            ),
            ArgError::InvalidSearch => String::from_str(
                "search must contain only Base64 chars [A-Za-z0-9+/]",
            ),
        }
    }
}

} // verus!
