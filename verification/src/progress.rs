use vstd::prelude::*;

verus! {

/// The progress declaration of a step: the value at which the indicator is
/// full, and the pattern whose single capture group yields the current
/// value from a log line.
pub struct ProgressScanningInfo {
    pub indicator_max: u32,
    pub indicator_regex_pattern: String,
}

impl ProgressScanningInfo {
    /// A field-for-field copy.
    pub fn duplicate(&self) -> (r: ProgressScanningInfo)
        ensures
            r.indicator_max == self.indicator_max,
            r.indicator_regex_pattern@ == self.indicator_regex_pattern@,
    {
        ProgressScanningInfo {
            indicator_max: self.indicator_max,
            indicator_regex_pattern: self.indicator_regex_pattern.clone(),
        }
    }
}

/// Whether a pattern is one the regex engine accepts.
pub uninterp spec fn pattern_compiles(pattern: Seq<char>) -> bool;

/// The number of capture slots of a compiled pattern, the implicit
/// whole-match slot included; at least one, and a function of the pattern
/// alone.
pub uninterp spec fn capture_slot_count(pattern: Seq<char>) -> nat;

/// What the first capture group of a pattern captures on a haystack:
/// absent when the pattern does not match, or when the group does not take
/// part in the match; a function of pattern and haystack alone.
pub uninterp spec fn first_capture_of(pattern: Seq<char>, haystack: Seq<char>) -> Option<Seq<char>>;

#[verifier::external_type_specification]
#[verifier::external_body]
pub struct ExRegex(regex::Regex);

/// A compiled pattern together with the text it was compiled from.
pub struct ScanRegex {
    pattern: String,
    regex: regex::Regex,
}

/// Relies on `regex::Regex::new`: compilation succeeds exactly for the
/// patterns the engine accepts, and depends on the pattern alone. The
/// compiled regex is stored beside its pattern text; the error case
/// carries the engine's message.
#[verifier::external_body]
fn compile_scan_regex(pattern: &str) -> (r: Result<ScanRegex, String>)
    ensures
        (r is Ok) == pattern_compiles(pattern@),
        (r matches Ok(s) ==> s.pattern@ == pattern@),
{
    match regex::Regex::new(pattern) {
        Ok(regex) => Ok(ScanRegex { pattern: pattern.to_owned(), regex }),
        Err(error) => Err(error.to_string()),
    }
}

/// Relies on `regex::Regex::captures_len`: the number of capture slots,
/// the implicit whole-match slot included, is a function of the pattern
/// alone and is at least one.
#[verifier::external_body]
fn scan_regex_slot_count(re: &ScanRegex) -> (n: usize)
    ensures
        n == capture_slot_count(re.pattern@),
        n >= 1,
{
    re.regex.captures_len()
}

/// Relies on `regex::Regex::captures` and `regex::Captures::get`: whether
/// the pattern matches a haystack and what its first capture group spans
/// are functions of pattern and haystack alone; `get` yields nothing when
/// the group did not take part in the match.
#[verifier::external_body]
fn scan_regex_first_capture(re: &ScanRegex, haystack: &str) -> (r: Option<String>)
    ensures
        (r is Some) == (first_capture_of(re.pattern@, haystack@) is Some),
        (r matches Some(s) ==> first_capture_of(re.pattern@, haystack@) matches Some(t) && s@
            == t),
{
    re.regex.captures(haystack).and_then(|c| c.get(1)).map(|m| m.as_str().to_owned())
}

/// Whether a character is a decimal digit.
pub open spec fn is_dec_digit(c: char) -> bool {
    '0' as u32 <= c as u32 <= '9' as u32
}

/// The value of a decimal digit character.
pub open spec fn dec_digit_value(c: char) -> nat {
    (c as u32 - '0' as u32) as nat
}

/// The value of a sequence of decimal digit characters.
pub open spec fn dec_value(s: Seq<char>) -> nat
    decreases s.len(),
{
    if s.len() == 0 {
        0
    } else {
        dec_value(s.drop_last()) * 10 + dec_digit_value(s.last())
    }
}

/// The digits of a numeral after its optional leading plus sign.
pub open spec fn numeral_digits(s: Seq<char>) -> Seq<char> {
    if s.len() > 0 && s[0] == '+' {
        s.drop_first()
    } else {
        s
    }
}

/// Whether a string is a numeral that fits an unsigned 32-bit integer: an
/// optional plus sign, then at least one decimal digit, with a value in
/// range.
pub open spec fn is_u32_numeral(s: Seq<char>) -> bool {
    &&& numeral_digits(s).len() > 0
    &&& (forall|j: int|
        0 <= j < numeral_digits(s).len() ==> is_dec_digit(#[trigger] numeral_digits(s)[j]))
    &&& dec_value(numeral_digits(s)) <= u32::MAX
}

/// The value of a numeral that fits an unsigned 32-bit integer.
pub open spec fn u32_numeral_value(s: Seq<char>) -> nat {
    dec_value(numeral_digits(s))
}

proof fn lemma_dec_value_prefix_le(s: Seq<char>, i: int)
    requires
        0 <= i <= s.len(),
    ensures
        dec_value(s.take(i)) <= dec_value(s),
    decreases s.len() - i,
{
    if i < s.len() {
        assert(s.take(i + 1).drop_last() =~= s.take(i));
        assert(dec_value(s.take(i)) <= dec_value(s.take(i + 1)));
        lemma_dec_value_prefix_le(s, i + 1);
        assert(s.take(s.len() as int) =~= s);
    } else {
        assert(s.take(i) =~= s);
    }
}

/// Parses a decimal numeral as the standard library's unsigned 32-bit
/// parser does: an optional plus sign, then decimal digits; fails on any
/// other character, on an empty digit run, and on overflow.
pub fn parse_u32(s: &str) -> (r: Option<u32>)
    ensures
        (r is Some) == is_u32_numeral(s@),
        (r matches Some(v) ==> v == u32_numeral_value(s@)),
{
    let len = s.unicode_len();
    let start: usize = if len > 0 && s.get_char(0) == '+' {
        1
    } else {
        0
    };
    let ghost digits = numeral_digits(s@);
    proof {
        assert(digits =~= s@.subrange(start as int, len as int));
    }
    if len == start {
        return None;
    }
    let mut value: u64 = 0;
    let mut i: usize = start;
    while i < len
        invariant
            start <= i <= len,
            len == s@.len(),
            start <= 1,
            digits == numeral_digits(s@),
            digits =~= s@.subrange(start as int, len as int),
            forall|j: int| 0 <= j < i - start ==> is_dec_digit(#[trigger] digits[j]),
            value == dec_value(digits.take(i - start)),
            value <= u32::MAX,
        decreases len - i,
    {
        let c = s.get_char(i);
        proof {
            assert(digits[i - start] == s@[i as int]);
        }
        let cu = c as u32;
        if !(cu >= '0' as u32 && cu <= '9' as u32) {
            return None;
        }
        let d: u64 = (cu - '0' as u32) as u64;
        let next: u64 = value * 10 + d;
        proof {
            assert(digits.take(i - start + 1).drop_last() =~= digits.take(i - start));
            assert(next == dec_value(digits.take(i - start + 1)));
        }
        if next > u32::MAX as u64 {
            proof {
                lemma_dec_value_prefix_le(digits, i - start + 1);
            }
            return None;
        }
        value = next;
        i = i + 1;
    }
    proof {
        assert(digits.take(len - start) =~= digits);
    }
    Some(value as u32)
}

/// The lines of a text, split as the standard library splits them: at each
/// newline, with a carriage return directly before a newline dropped, and
/// without a final empty line after a trailing newline.
pub open spec fn lines_of(s: Seq<char>) -> Seq<Seq<char>>
    decreases s.len(),
{
    if s.len() == 0 {
        Seq::empty()
    } else {
        match find_char(s, '\n') {
            Some(i) => {
                proof {
                    lemma_find_char(s, '\n');
                }
                seq![strip_trailing_cr(s.take(i))] + lines_of(s.skip(i + 1))
            },
            None => seq![s],
        }
    }
}

/// The index of the first occurrence of a character.
pub open spec fn find_char(s: Seq<char>, c: char) -> Option<int>
    decreases s.len(),
{
    if s.len() == 0 {
        None
    } else if s[0] == c {
        Some(0)
    } else {
        match find_char(s.drop_first(), c) {
            Some(i) => Some(i + 1),
            None => None,
        }
    }
}

/// A text without its trailing carriage return, where it has one.
pub open spec fn strip_trailing_cr(s: Seq<char>) -> Seq<char> {
    if s.len() > 0 && s.last() == '\r' {
        s.drop_last()
    } else {
        s
    }
}

pub proof fn lemma_find_char(s: Seq<char>, c: char)
    ensures
        match find_char(s, c) {
            Some(i) => 0 <= i < s.len() && s[i] == c && forall|j: int| 0 <= j < i ==> s[j] != c,
            None => forall|j: int| 0 <= j < s.len() ==> s[j] != c,
        },
    decreases s.len(),
{
    if s.len() > 0 && s[0] != c {
        lemma_find_char(s.drop_first(), c);
        assert forall|j: int| #![trigger s[j]] 1 <= j < s.len() implies s[j] == s.drop_first()[j
            - 1] by {}
    }
}

fn find_newline(s: &str, from: usize) -> (r: Option<usize>)
    requires
        from <= s@.len(),
    ensures
        (r matches Some(i) ==> from <= i < s@.len() && find_char(s@.skip(from as int), '\n')
            == Some(i as int - from as int)),
        (r is None ==> find_char(s@.skip(from as int), '\n') is None),
{
    let len = s.unicode_len();
    let mut i = from;
    while i < len
        invariant
            from <= i <= len,
            len == s@.len(),
            forall|j: int| from <= j < i ==> s@[j] != '\n',
        decreases len - i,
    {
        if s.get_char(i) == '\n' {
            proof {
                lemma_find_char(s@.skip(from as int), '\n');
                assert(s@.skip(from as int)[i - from as int] == s@[i as int]);
                assert forall|j: int| 0 <= j < s@.skip(from as int).len() implies s@.skip(
                    from as int,
                )[j] == s@[j + from] by {}
                match find_char(s@.skip(from as int), '\n') {
                    Some(k) => {
                        assert(s@[k + from] == '\n');
                        assert(k + from >= i);
                        assert(k <= i - from);
                    },
                    None => {
                        assert(s@.skip(from as int)[i - from] == '\n');
                        assert(false);
                    },
                }
            }
            return Some(i);
        }
        i = i + 1;
    }
    proof {
        lemma_find_char(s@.skip(from as int), '\n');
        assert forall|j: int| 0 <= j < s@.skip(from as int).len() implies s@.skip(from as int)[j]
            == s@[j + from] by {}
        match find_char(s@.skip(from as int), '\n') {
            Some(k) => {
                assert(s@[k + from] == '\n');
                assert(false);
            },
            None => {},
        }
    }
    None
}

/// Splits a text into its lines, as the standard library's line iterator
/// does.
pub fn split_lines(s: &str) -> (r: Vec<String>)
    ensures
        r@.map_values(|l: String| l@) == lines_of(s@),
{
    let mut out: Vec<String> = Vec::new();
    let len = s.unicode_len();
    let mut pos: usize = 0;
    let ghost mut produced: Seq<Seq<char>> = Seq::empty();
    proof {
        assert(s@.skip(0) =~= s@);
        assert(produced + lines_of(s@) =~= lines_of(s@));
    }
    while pos < len
        invariant
            pos <= len,
            len == s@.len(),
            produced == out@.map_values(|l: String| l@),
            lines_of(s@) == produced + lines_of(s@.skip(pos as int)),
        decreases len - pos,
    {
        let ghost rest = s@.skip(pos as int);
        proof {
            assert(rest.len() > 0);
        }
        match find_newline(s, pos) {
            Some(nl) => {
                let line_end = if nl > pos && s.get_char(nl - 1) == '\r' {
                    nl - 1
                } else {
                    nl
                };
                let line = s.substring_char(pos, line_end).to_owned();
                proof {
                    assert(rest.take(nl - pos) =~= s@.subrange(pos as int, nl as int));
                    if nl > pos && s@[nl - 1] == '\r' {
                        assert(strip_trailing_cr(rest.take(nl - pos)) =~= s@.subrange(
                            pos as int,
                            line_end as int,
                        ));
                    } else {
                        assert(strip_trailing_cr(rest.take(nl - pos)) =~= s@.subrange(
                            pos as int,
                            line_end as int,
                        ));
                    }
                    assert(rest.skip(nl - pos + 1) =~= s@.skip(nl + 1));
                    assert(lines_of(rest) == seq![strip_trailing_cr(rest.take(nl - pos))]
                        + lines_of(rest.skip(nl - pos + 1)));
                }
                out.push(line);
                proof {
                    produced = produced.push(line@);
                    assert(produced == out@.map_values(|l: String| l@)) by {
                        assert(produced =~= out@.map_values(|l: String| l@));
                    }
                    assert(produced + lines_of(s@.skip(nl + 1)) =~= (produced.drop_last()
                        + lines_of(rest)));
                }
                pos = nl + 1;
            },
            None => {
                let line = s.substring_char(pos, len).to_owned();
                proof {
                    assert(rest =~= s@.subrange(pos as int, len as int));
                    assert(lines_of(rest) == seq![rest]);
                }
                out.push(line);
                proof {
                    produced = produced.push(line@);
                    assert(produced == out@.map_values(|l: String| l@)) by {
                        assert(produced =~= out@.map_values(|l: String| l@));
                    }
                    assert(produced + lines_of(s@.skip(len as int)) =~= produced.drop_last()
                        + lines_of(rest)) by {
                        assert(s@.skip(len as int).len() == 0);
                        assert(lines_of(s@.skip(len as int)) =~= Seq::<Seq<char>>::empty());
                    }
                }
                pos = len;
            },
        }
    }
    proof {
        assert(s@.skip(pos as int).len() == 0);
        assert(lines_of(s@.skip(pos as int)) =~= Seq::<Seq<char>>::empty());
        assert(lines_of(s@) =~= produced);
    }
    out
}

/// Why progress could not be set up or read.
pub enum ProgressScanError {
    /// The pattern was not accepted by the regex engine; carries the
    /// engine's message.
    CompilationFailure(String),
    /// The pattern does not have exactly one capture group: `count` is the
    /// number of capture slots, the whole-match slot included.
    InvalidCaptureGroupCount { pattern: String, count: usize },
    /// A matched line's capture is not an unsigned integer.
    NonIntegerMatch { pattern: String, line: String, capture_match: String },
}

/// A compiled progress scanner: the step's progress declaration and its
/// compiled pattern. Stateless across reads.
pub struct ProgressScanner {
    pub info: ProgressScanningInfo,
    regex: ScanRegex,
}

/// Whether a line's capture exists but is not an unsigned integer.
pub open spec fn line_is_bad(pattern: Seq<char>, line: Seq<char>) -> bool {
    first_capture_of(pattern, line) matches Some(c) && !is_u32_numeral(c)
}

/// The progress a line reports: the value of its capture, or zero when the
/// pattern does not match (or the capture is not an integer).
pub open spec fn line_progress(pattern: Seq<char>, line: Seq<char>) -> nat {
    match first_capture_of(pattern, line) {
        Some(c) => if is_u32_numeral(c) {
            u32_numeral_value(c)
        } else {
            0
        },
        None => 0,
    }
}

/// The progress a log reports: the maximum over its lines, zero when no
/// line matches.
pub open spec fn max_scan_progress(pattern: Seq<char>, lines: Seq<Seq<char>>) -> nat
    decreases lines.len(),
{
    if lines.len() == 0 {
        0
    } else {
        let rest = max_scan_progress(pattern, lines.drop_last());
        if line_progress(pattern, lines.last()) > rest {
            line_progress(pattern, lines.last())
        } else {
            rest
        }
    }
}

impl ProgressScanner {
    /// The progress declaration this scanner was built from.
    pub closed spec fn info_spec(&self) -> ProgressScanningInfo {
        self.info
    }

    /// The compiled pattern is the declared one.
    pub closed spec fn wf(&self) -> bool {
        self.regex.pattern@ == self.info.indicator_regex_pattern@
    }

    /// The value at which the indicator is full.
    pub fn indicator_max(&self) -> (r: u32)
        ensures
            r == self.info_spec().indicator_max,
    {
        self.info.indicator_max
    }

    /// Compiles the declared pattern. Fails with `CompilationFailure` when
    /// the engine rejects it, and with `InvalidCaptureGroupCount` when it
    /// does not have exactly one capture group (two capture slots).
    pub fn new(info: &ProgressScanningInfo) -> (r: Result<ProgressScanner, ProgressScanError>)
        ensures
            ({
                let pattern = info.indicator_regex_pattern@;
                &&& (!pattern_compiles(pattern) ==> (r matches Err(e) && e is CompilationFailure))
                &&& (pattern_compiles(pattern) && capture_slot_count(pattern) != 2 ==> (r matches
                    Err(e) && e matches ProgressScanError::InvalidCaptureGroupCount {
                    pattern: p,
                    count,
                } && p@ == pattern && count == capture_slot_count(pattern)))
                &&& (pattern_compiles(pattern) && capture_slot_count(pattern) == 2 ==> (r matches
                    Ok(sc) && sc.wf() && sc.info_spec().indicator_max == info.indicator_max
                    && sc.info_spec().indicator_regex_pattern@ == pattern))
            }),
    {
        let compiled = match compile_scan_regex(info.indicator_regex_pattern.as_str()) {
            Ok(c) => c,
            Err(message) => {
                return Err(ProgressScanError::CompilationFailure(message));
            },
        };
        let slots = scan_regex_slot_count(&compiled);
        if slots != 2 {
            return Err(
                ProgressScanError::InvalidCaptureGroupCount {
                    pattern: info.indicator_regex_pattern.clone(),
                    count: slots,
                },
            );
        }
        Ok(ProgressScanner { info: info.duplicate(), regex: compiled })
    }

    /// Scans the log line by line: each line the pattern matches reports
    /// the value of its capture, and the result is the maximum reported
    /// value, zero when no line matches. Fails with `NonIntegerMatch` on
    /// the first matched line whose capture is not an unsigned integer.
    pub fn read_progress(&self, log_contents: &str) -> (r: Result<u32, ProgressScanError>)
        requires
            self.wf(),
        ensures
            ({
                let pattern = self.info_spec().indicator_regex_pattern@;
                let lines = lines_of(log_contents@);
                &&& ((r is Ok) <==> (forall|j: int|
                    0 <= j < lines.len() ==> !line_is_bad(pattern, #[trigger] lines[j])))
                &&& (r matches Ok(v) ==> v == max_scan_progress(pattern, lines))
                &&& (r matches Err(e) ==> e matches ProgressScanError::NonIntegerMatch {
                    pattern: ep,
                    line,
                    capture_match,
                } && ep@ == pattern && (exists|i: int|
                    0 <= i < lines.len() && line_is_bad(pattern, #[trigger] lines[i]) && (forall|
                        j: int,
                    |
                        0 <= j < i ==> !line_is_bad(pattern, #[trigger] lines[j])) && line@
                        == lines[i] && (first_capture_of(pattern, lines[i]) matches Some(c)
                        && capture_match@ == c)))
            }),
    {
        let ghost pattern = self.info.indicator_regex_pattern@;
        let ghost lines = lines_of(log_contents@);
        let line_texts = split_lines(log_contents);
        let mut best: u32 = 0;
        let mut i: usize = 0;
        while i < line_texts.len()
            invariant
                self.wf(),
                pattern == self.info.indicator_regex_pattern@,
                lines == lines_of(log_contents@),
                line_texts@.map_values(|l: String| l@) == lines,
                i <= line_texts.len(),
                lines.len() == line_texts.len(),
                forall|j: int| 0 <= j < i ==> !line_is_bad(pattern, #[trigger] lines[j]),
                best == max_scan_progress(pattern, lines.take(i as int)),
            decreases line_texts.len() - i,
        {
            proof {
                assert(lines[i as int] == line_texts@[i as int]@);
            }
            match scan_regex_first_capture(&self.regex, line_texts[i].as_str()) {
                Some(captured) => {
                    match parse_u32(captured.as_str()) {
                        Some(value) => {
                            if value > best {
                                best = value;
                            }
                            proof {
                                assert(lines.take(i + 1).drop_last() =~= lines.take(i as int));
                                assert(lines.take(i + 1).last() == lines[i as int]);
                                assert(best == max_scan_progress(pattern, lines.take(i + 1)));
                            }
                        },
                        None => {
                            return Err(
                                ProgressScanError::NonIntegerMatch {
                                    pattern: self.info.indicator_regex_pattern.clone(),
                                    line: line_texts[i].clone(),
                                    capture_match: captured,
                                },
                            );
                        },
                    }
                },
                None => {
                    proof {
                        assert(lines.take(i + 1).drop_last() =~= lines.take(i as int));
                        assert(lines.take(i + 1).last() == lines[i as int]);
                        assert(best == max_scan_progress(pattern, lines.take(i + 1)));
                    }
                },
            }
            i = i + 1;
        }
        proof {
            assert(lines.take(lines.len() as int) =~= lines);
        }
        Ok(best)
    }
}

} // verus!
