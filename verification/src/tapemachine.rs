use vstd::prelude::*;

verus! {

/// The escape character: a character preceded by an unescaped `ESCAPE`
/// is never treated as a match by the `check_*` and `assert_*` predicates.
pub const ESCAPE: char = '\\';

/// An error raised by a tape operation, carrying the index at which it occurred.
#[derive(Debug, Clone, Copy, PartialEq, Eq, Structural)]
pub struct TapeError {
    index: usize,
}

pub type TapeResult<T> = Result<T, TapeError>;

impl TapeError {
    /// The index the error was raised at.
    pub closed spec fn spec_index(&self) -> int {
        self.index as int
    }

    pub fn new(index: usize) -> (r: Self)
        ensures
            r.spec_index() == index,
    {
        TapeError { index }
    }

    /// The index the error was raised at.
    pub fn index(&self) -> (r: usize)
        ensures
            r == self.spec_index(),
    {
        self.index
    }
}

/// The mathematical state of a tape: the full text, the cursor,
/// and the cached current and previous characters.
pub ghost struct TapeModel {
    pub text: Seq<char>,
    pub index: int,
    pub current: char,
    pub previous: char,
}

/// The tape invariant: the cursor never passes one position beyond the end,
/// and while it is inside the text the cached current character is the
/// character under the cursor.
pub open spec fn tape_wf(m: TapeModel) -> bool {
    &&& 0 <= m.index <= m.text.len()
    &&& m.index < m.text.len() ==> m.current == m.text[m.index]
}

/// The state of a freshly constructed tape over `text`: cursor at 0, and both
/// cached characters hold the first character (or a space for an empty text).
pub open spec fn tape_new(text: Seq<char>) -> TapeModel {
    let first = if text.len() > 0 {
        text[0]
    } else {
        ' '
    };
    TapeModel { text, index: 0, current: first, previous: first }
}

/// One forward step of the tape. Inside the text the cursor advances and the
/// caches shift; at the final index the cursor steps out (the current
/// character goes stale); past the end nothing changes.
pub open spec fn tape_step(m: TapeModel) -> TapeModel {
    if m.index < m.text.len() {
        let i = m.index + 1;
        TapeModel {
            text: m.text,
            index: i,
            current: if i < m.text.len() {
                m.text[i]
            } else {
                m.current
            },
            previous: m.current,
        }
    } else {
        m
    }
}

/// What a forward step returns: the character the step lands on, if any.
pub open spec fn tape_step_result(m: TapeModel) -> Option<char> {
    if m.index + 1 < m.text.len() {
        Some(m.text[m.index + 1])
    } else {
        None::<char>
    }
}

/// The state after rewinding to index `i`.
pub open spec fn tape_rewound(m: TapeModel, i: int) -> TapeModel {
    TapeModel { text: m.text, index: i, current: m.text[i], previous: m.previous }
}

/// Whether `check_char(c)` holds in state `m`: the current character is `c`
/// and it is not escaped.
pub open spec fn spec_check_char(m: TapeModel, c: char) -> bool {
    m.current == c && m.previous != ESCAPE
}

/// Whether `check_any(chars)` holds in state `m`.
pub open spec fn spec_check_any(m: TapeModel, chars: Seq<char>) -> bool {
    m.previous != ESCAPE && chars.contains(m.current)
}

/// A literal sequence matches at `start` when it fits with at least one
/// character of text left after it, and the text carries it there. The spare
/// character is needed because a successful sequence check always steps once
/// past the sequence before parking on its last character.
pub open spec fn seq_matches_at(text: Seq<char>, start: int, sq: Seq<char>) -> bool {
    &&& start + sq.len() < text.len()
    &&& text.subrange(start, start + sq.len()) == sq
}

/// The state a successful sequence check leaves behind: parked on the last
/// matched character (one before the start, for an empty sequence).
pub open spec fn seq_success_state(m: TapeModel, sq: Seq<char>) -> TapeModel {
    let end = m.index + sq.len();
    if end > 0 {
        TapeModel {
            text: m.text,
            index: end - 1,
            current: m.text[end - 1],
            previous: if sq.len() > 0 {
                m.text[end - 1]
            } else {
                m.previous
            },
        }
    } else {
        m
    }
}

/// The position of the first sequence in `sqs[i..]` that matches at `start`,
/// or `sqs.len()` when none does.
pub open spec fn first_match_from(
    text: Seq<char>,
    start: int,
    sqs: Seq<Seq<char>>,
    i: int,
) -> int
    decreases sqs.len() - i,
{
    if i < 0 || i >= sqs.len() {
        sqs.len() as int
    } else if seq_matches_at(text, start, sqs[i]) {
        i
    } else {
        first_match_from(text, start, sqs, i + 1)
    }
}

/// The first match position lies between `i` and the group's length; where
/// it lies inside the group, the sequence there matches and none before it
/// (from `i` on) does.
pub proof fn lemma_first_match_from_bounds(text: Seq<char>, start: int, sqs: Seq<Seq<char>>, i: int)
    requires
        0 <= i <= sqs.len(),
    ensures
        i <= first_match_from(text, start, sqs, i) <= sqs.len(),
        first_match_from(text, start, sqs, i) < sqs.len() ==> seq_matches_at(
            text,
            start,
            sqs[first_match_from(text, start, sqs, i)],
        ),
        forall|j: int|
            i <= j < first_match_from(text, start, sqs, i) ==> !seq_matches_at(text, start, sqs[j]),
    decreases sqs.len() - i,
{
    if i < sqs.len() && !seq_matches_at(text, start, sqs[i]) {
        lemma_first_match_from_bounds(text, start, sqs, i + 1);
    }
}

/// The views of a group of literal sequences.
pub open spec fn views_of(sqs: Seq<&[char]>) -> Seq<Seq<char>> {
    sqs.map_values(|s: &[char]| s@)
}

/// The state of a tape after `n` forward steps.
pub open spec fn tape_step_n(m: TapeModel, n: nat) -> TapeModel
    decreases n,
{
    if n == 0 {
        m
    } else {
        tape_step(tape_step_n(m, (n - 1) as nat))
    }
}

/// Law (round trip): reading a tape built from `text` back through its whole
/// length reproduces `text` exactly: after `k` steps the cursor stands at `k`
/// and the current character is `text[k]`; the previous character is the one
/// before it (the first character escapes itself at position 0).
pub proof fn lemma_tape_round_trip(text: Seq<char>, k: int)
    requires
        0 <= k < text.len(),
    ensures
        tape_step_n(tape_new(text), k as nat).text == text,
        tape_step_n(tape_new(text), k as nat).index == k,
        tape_step_n(tape_new(text), k as nat).current == text[k],
        tape_step_n(tape_new(text), k as nat).previous == (if k == 0 {
            text[0]
        } else {
            text[k - 1]
        }),
        tape_wf(tape_step_n(tape_new(text), k as nat)),
    decreases k,
{
    if k > 0 {
        lemma_tape_round_trip(text, k - 1);
    }
}

/// Law (no history leakage): rewinding to `i` leaves exactly the reads a
/// fresh tape stepped to `i` would give: the same cursor, the same current
/// character, and the same result for a further step.
pub proof fn lemma_rewind_no_history(m: TapeModel, i: int)
    requires
        tape_wf(m),
        0 <= i < m.text.len(),
    ensures
        tape_rewound(m, i).index == tape_step_n(tape_new(m.text), i as nat).index,
        tape_rewound(m, i).current == tape_step_n(tape_new(m.text), i as nat).current,
        tape_step_result(tape_rewound(m, i)) == tape_step_result(
            tape_step_n(tape_new(m.text), i as nat),
        ),
{
    lemma_tape_round_trip(m.text, i);
}

/// Law (escape invariant): at any stepped-to position `k`, `check_char(c)`
/// holds exactly when the character there is `c` and the character before it
/// is not the escape character (at position 0 the first character plays its
/// own predecessor). In particular a character right after a backslash never
/// matches, and a repeated ordinary character matches at either position.
pub proof fn lemma_escape_awareness(text: Seq<char>, k: int, c: char)
    requires
        0 <= k < text.len(),
    ensures
        spec_check_char(tape_step_n(tape_new(text), k as nat), c) == (text[k] == c && (if k == 0 {
            text[0]
        } else {
            text[k - 1]
        }) != ESCAPE),
{
    lemma_tape_round_trip(text, k);
}

/// Whether `char::is_whitespace` holds of `c`.
pub uninterp spec fn is_whitespace_char(c: char) -> bool;

/// Relies on char::is_whitespace: whether the character has the Unicode
/// white-space property, a function of the character alone.
#[verifier::external_body]
fn is_whitespace(c: char) -> (r: bool)
    ensures
        r == is_whitespace_char(c),
{
    c.is_whitespace()
}

/// Relies on String::push: appends the character to the end of the string.
#[verifier::external_body]
fn push_char(s: &mut String, c: char)
    ensures
        final(s)@ == old(s)@.push(c),
{
    s.push(c);
}

/// The first position at or after `i` holding an unescaped character of
/// `u + e` (one whose predecessor is not the escape character), or the text
/// length when there is none.
pub open spec fn scan_stop_any(text: Seq<char>, i: int, u: Seq<char>, e: Seq<char>) -> int
    decreases text.len() - i,
{
    if i >= text.len() {
        text.len() as int
    } else if text[i - 1] != ESCAPE && (u.contains(text[i]) || e.contains(text[i])) {
        i
    } else {
        scan_stop_any(text, i + 1, u, e)
    }
}

/// Where a scan from state `m` for a delimiter of `u + e` stops: at the
/// cursor itself when the current character is an unescaped delimiter, else
/// at the first unescaped delimiter after it, else at the text length.
pub open spec fn until_any_stop(m: TapeModel, u: Seq<char>, e: Seq<char>) -> int {
    if m.previous != ESCAPE && (u.contains(m.text[m.index]) || e.contains(m.text[m.index])) {
        m.index
    } else {
        scan_stop_any(m.text, m.index + 1, u, e)
    }
}

/// Whether such a scan ends in an error: the stop lies on a character of the
/// error group. At the starting position the wanted group wins over the error
/// group; at every later stop the error group wins.
pub open spec fn until_any_errs(m: TapeModel, u: Seq<char>, e: Seq<char>) -> bool {
    let stop = until_any_stop(m, u, e);
    if stop == m.index {
        !u.contains(m.text[stop]) && e.contains(m.text[stop])
    } else {
        stop < m.text.len() && e.contains(m.text[stop])
    }
}

/// The state a successful scan stops in: on the delimiter, or one step past
/// the final index when the text ran out first.
pub open spec fn until_any_ok_state(m: TapeModel, u: Seq<char>, e: Seq<char>) -> TapeModel {
    let stop = until_any_stop(m, u, e);
    if stop == m.index {
        m
    } else if stop < m.text.len() {
        TapeModel { text: m.text, index: stop, current: m.text[stop], previous: m.text[stop - 1] }
    } else {
        TapeModel {
            text: m.text,
            index: m.text.len() as int,
            current: m.text[m.text.len() - 1],
            previous: m.text[m.text.len() - 1],
        }
    }
}

/// The state a failed scan stops in: rewound to the start (the cached
/// previous character keeps the value it had at the error position).
pub open spec fn until_any_err_state(m: TapeModel, u: Seq<char>, e: Seq<char>) -> TapeModel {
    let stop = until_any_stop(m, u, e);
    if stop == m.index {
        m
    } else {
        TapeModel {
            text: m.text,
            index: m.index,
            current: m.text[m.index],
            previous: m.text[stop - 1],
        }
    }
}

/// Whether any sequence of `us + es` matches at position `p` of the text.
pub open spec fn any_seq_matches_at(
    text: Seq<char>,
    p: int,
    us: Seq<Seq<char>>,
    es: Seq<Seq<char>>,
) -> bool {
    first_match_from(text, p, us, 0) < us.len() || first_match_from(text, p, es, 0) < es.len()
}

/// The first position at or after `i` where some sequence of `us + es`
/// matches and the character there is unescaped, or the text length when
/// there is none.
pub open spec fn scan_stop_seq(
    text: Seq<char>,
    i: int,
    us: Seq<Seq<char>>,
    es: Seq<Seq<char>>,
) -> int
    decreases text.len() - i,
{
    if i >= text.len() {
        text.len() as int
    } else if text[i - 1] != ESCAPE && any_seq_matches_at(text, i, us, es) {
        i
    } else {
        scan_stop_seq(text, i + 1, us, es)
    }
}

/// Where a scan from state `m` for a delimiting sequence of `us + es` stops.
pub open spec fn until_seq_stop(m: TapeModel, us: Seq<Seq<char>>, es: Seq<Seq<char>>) -> int {
    if m.previous != ESCAPE && any_seq_matches_at(m.text, m.index, us, es) {
        m.index
    } else {
        scan_stop_seq(m.text, m.index + 1, us, es)
    }
}

/// Whether such a scan ends in an error: a sequence of `es` matches at the
/// stop and none of `us` does (`us` wins at every position).
pub open spec fn until_seq_errs(m: TapeModel, us: Seq<Seq<char>>, es: Seq<Seq<char>>) -> bool {
    let stop = until_seq_stop(m, us, es);
    stop < m.text.len() && first_match_from(m.text, stop, us, 0) >= us.len()
}

/// The tape state standing at position `p`, reached by stepping from `m`.
pub open spec fn state_at(m: TapeModel, p: int) -> TapeModel {
    if p == m.index {
        m
    } else {
        TapeModel { text: m.text, index: p, current: m.text[p], previous: m.text[p - 1] }
    }
}

/// The state a successful sequence scan stops in: parked on the last
/// character of the matched delimiting sequence, or one step past the final
/// index when the text ran out first.
pub open spec fn until_seq_ok_state(m: TapeModel, us: Seq<Seq<char>>, es: Seq<Seq<char>>) -> TapeModel {
    let stop = until_seq_stop(m, us, es);
    if stop == m.text.len() {
        TapeModel {
            text: m.text,
            index: stop,
            current: m.text[stop - 1],
            previous: m.text[stop - 1],
        }
    } else {
        seq_success_state(state_at(m, stop), us[first_match_from(m.text, stop, us, 0)])
    }
}

/// The state a failed sequence scan stops in: rewound to the start (the
/// cached previous character keeps the value the consumed error sequence
/// left behind).
pub open spec fn until_seq_err_state(m: TapeModel, us: Seq<Seq<char>>, es: Seq<Seq<char>>) -> TapeModel {
    let stop = until_seq_stop(m, us, es);
    let consumed = seq_success_state(state_at(m, stop), es[first_match_from(m.text, stop, es, 0)]);
    TapeModel {
        text: m.text,
        index: m.index,
        current: m.text[m.index],
        previous: consumed.previous,
    }
}

/// The state `seek_whitespace` stops in: the tape is stepped for as long as
/// the current character is unescaped whitespace (a step out of the text
/// ends the walk as well).
pub open spec fn whitespace_walk(m: TapeModel) -> TapeModel
    decreases m.text.len() - m.index,
{
    if !(is_whitespace_char(m.current) && m.previous != ESCAPE) {
        m
    } else if tape_step_result(m) is None {
        tape_step(m)
    } else if 0 <= m.index < m.text.len() {
        whitespace_walk(tape_step(m))
    } else {
        m
    }
}

/// A character-level tape over a fully materialized text, with a cursor,
/// escape-aware matching, and backtracking by absolute rewind.
pub struct CharTapeMachine {
    index: usize,
    text: Vec<char>,
    current_char: char,
    previous_char: char,
}

impl View for CharTapeMachine {
    type V = TapeModel;

    closed spec fn view(&self) -> TapeModel {
        TapeModel {
            text: self.text@,
            index: self.index as int,
            current: self.current_char,
            previous: self.previous_char,
        }
    }
}

impl CharTapeMachine {
    pub fn new(text: Vec<char>) -> (r: Self)
        ensures
            r@ == tape_new(text@),
            tape_wf(r@),
    {
        let current_char = if text.len() > 0 {
            text[0]
        } else {
            ' '
        };
        CharTapeMachine { text, index: 0, previous_char: current_char, current_char }
    }

    /// A copy of the full text.
    pub fn get_text(&self) -> (r: Vec<char>)
        ensures
            r@ == self@.text,
    {
        let mut out: Vec<char> = Vec::new();
        let mut i: usize = 0;
        while i < self.text.len()
            invariant
                i <= self.text.len(),
                out@ == self.text@.subrange(0, i as int),
            decreases self.text.len() - i,
        {
            out.push(self.text[i]);
            assert(out@ == self.text@.subrange(0, i + 1 as int));
            i = i + 1;
        }
        assert(out@ == self.text@);
        out
    }

    /// Advances the cursor by one and returns the character it lands on,
    /// if there is one.
    pub fn next_char(&mut self) -> (r: Option<char>)
        ensures
            final(self)@ == tape_step(old(self)@),
            r == tape_step_result(old(self)@),
            tape_wf(old(self)@) ==> tape_wf(final(self)@),
    {
        if self.index < self.text.len() {
            self.index = self.index + 1;
            self.previous_char = self.current_char;
            if self.index < self.text.len() {
                self.current_char = self.text[self.index];
                Some(self.current_char)
            } else {
                None
            }
        } else {
            None
        }
    }

    /// Returns the character one position ahead without moving the cursor.
    pub fn peek_char(&mut self) -> (r: Option<char>)
        ensures
            final(self)@ == old(self)@,
            r == (if old(self)@.index + 1 < old(self)@.text.len() {
                Some(old(self)@.text[old(self)@.index + 1])
            } else {
                None::<char>
            }),
    {
        if self.text.len() > 0 && self.index < self.text.len() - 1 {
            Some(self.text[self.index + 1])
        } else {
            None
        }
    }

    /// Unconditionally resets the cursor (and the cached current character)
    /// to `index`.
    pub fn rewind(&mut self, index: usize)
        requires
            index < old(self)@.text.len(),
        ensures
            final(self)@ == tape_rewound(old(self)@, index as int),
            tape_wf(final(self)@),
    {
        self.index = index;
        self.current_char = self.text[index];
    }

    /// Rewinds to `index` and returns an error carrying that index.
    pub fn rewind_with_error(&mut self, index: usize) -> (r: TapeError)
        requires
            index < old(self)@.text.len(),
        ensures
            final(self)@ == tape_rewound(old(self)@, index as int),
            tape_wf(final(self)@),
            r.spec_index() == index,
    {
        self.rewind(index);
        TapeError::new(index)
    }

    /// Steps one character forward, or returns an error at the (stepped)
    /// cursor if there is no next character.
    pub fn seek_one(&mut self) -> (r: TapeResult<()>)
        ensures
            final(self)@ == tape_step(old(self)@),
            tape_wf(old(self)@) ==> tape_wf(final(self)@),
            r is Ok <==> tape_step_result(old(self)@) is Some,
            r matches Err(e) ==> e.spec_index() == tape_step(old(self)@).index,
    {
        match self.next_char() {
            Some(_) => Ok(()),
            None => Err(TapeError::new(self.index)),
        }
    }

    /// Whether the cursor has stepped out past the final index.
    pub fn check_eof(&self) -> (r: bool)
        ensures
            r == (self@.index >= self@.text.len()),
    {
        self.index >= self.text.len()
    }

    /// Whether the current character is escaped, that is, whether the
    /// previous character was the escape character. Only one character of
    /// lookback is kept, so a character right after an escaped backslash is
    /// itself still considered escaped.
    pub fn check_escaped(&self) -> (r: bool)
        ensures
            r == (self@.previous == ESCAPE),
    {
        self.previous_char == ESCAPE
    }

    /// Whether the current character equals `value` and is not escaped.
    pub fn check_char(&self, value: &char) -> (r: bool)
        ensures
            r == spec_check_char(self@, *value),
    {
        self.current_char == *value && !(self.previous_char == ESCAPE)
    }

    /// Whether the current character is one of `chars` and is not escaped.
    #[verifier::loop_isolation(false)]
    pub fn check_any(&self, chars: &[char]) -> (r: bool)
        ensures
            r == spec_check_any(self@, chars@),
    {
        if self.previous_char == ESCAPE {
            return false;
        }
        let mut i: usize = 0;
        while i < chars.len()
            invariant
                i <= chars.len(),
                forall|j: int| 0 <= j < i ==> chars@[j] != self@.current,
            decreases chars.len() - i,
        {
            if chars[i] == self.current_char {
                assert(chars@[i as int] == self@.current);
                return true;
            }
            i = i + 1;
        }
        false
    }

    /// Whether the text at the cursor carries the literal `sequence` with a
    /// character to spare after it, and the cursor is not on an escaped
    /// character. On success the cursor parks on the last matched character
    /// (one before the start for an empty sequence); on failure the attempt
    /// leaves no observable trace.
    #[verifier::loop_isolation(false)]
    pub fn check_sequence(&mut self, sequence: &[char]) -> (r: bool)
        requires
            tape_wf(old(self)@),
            old(self)@.index < old(self)@.text.len(),
        ensures
            tape_wf(final(self)@),
            r == (old(self)@.previous != ESCAPE && seq_matches_at(
                old(self)@.text,
                old(self)@.index,
                sequence@,
            )),
            r ==> final(self)@ == seq_success_state(old(self)@, sequence@),
            !r ==> final(self)@ == old(self)@,
    {
        let start_index = self.index;
        let saved_previous = self.previous_char;
        if self.check_escaped() {
            return false;
        }
        let mut i: usize = 0;
        while i < sequence.len()
            invariant
                i <= sequence.len(),
                self@.text == old(self)@.text,
                self@.index == start_index + i,
                self@.index < self@.text.len(),
                tape_wf(self@),
                self@.previous == if i > 0 {
                    self@.text[start_index + i - 1]
                } else {
                    old(self)@.previous
                },
                forall|j: int| 0 <= j < i ==> self@.text[start_index + j] == sequence@[j],
            decreases sequence.len() - i,
        {
            if self.current_char != sequence[i] {
                assert(!seq_matches_at(old(self)@.text, old(self)@.index, sequence@)) by {
                    assert(self@.text[start_index + i] != sequence@[i as int]);
                }
                self.rewind(start_index);
                self.previous_char = saved_previous;
                return false;
            }
            if self.next_char().is_none() {
                assert(!seq_matches_at(old(self)@.text, old(self)@.index, sequence@));
                self.rewind(start_index);
                self.previous_char = saved_previous;
                return false;
            }
            i = i + 1;
        }
        proof {
            assert(old(self)@.text.subrange(
                start_index as int,
                start_index + sequence@.len(),
            ) =~= sequence@);
        }
        if self.index > 0 {
            let back = self.index - 1;
            self.rewind(back);
        }
        true
    }

    /// Tries each literal sequence in order; the first that matches wins, and
    /// a failed try leaves no observable trace.
    #[verifier::loop_isolation(false)]
    pub fn check_any_sequence(&mut self, sequences: &[&[char]]) -> (r: bool)
        requires
            tape_wf(old(self)@),
            old(self)@.index < old(self)@.text.len(),
        ensures
            tape_wf(final(self)@),
            r == (old(self)@.previous != ESCAPE && first_match_from(
                old(self)@.text,
                old(self)@.index,
                views_of(sequences@),
                0,
            ) < sequences@.len()),
            r ==> final(self)@ == seq_success_state(
                old(self)@,
                sequences@[first_match_from(
                    old(self)@.text,
                    old(self)@.index,
                    views_of(sequences@),
                    0,
                )]@,
            ),
            !r ==> final(self)@ == old(self)@,
    {
        let ghost sqs = views_of(sequences@);
        if self.check_escaped() {
            return false;
        }
        let mut i: usize = 0;
        while i < sequences.len()
            invariant
                i <= sequences.len(),
                self@ == old(self)@,
                first_match_from(old(self)@.text, old(self)@.index, sqs, 0) == first_match_from(
                    old(self)@.text,
                    old(self)@.index,
                    sqs,
                    i as int,
                ),
            decreases sequences.len() - i,
        {
            if self.check_sequence(sequences[i]) {
                assert(sqs[i as int] == sequences@[i as int]@);
                return true;
            }
            assert(sqs[i as int] == sequences@[i as int]@);
            i = i + 1;
        }
        false
    }

    /// Steps forward for as long as the current character is unescaped
    /// whitespace; a no-op when it is not.
    pub fn seek_whitespace(&mut self)
        requires
            tape_wf(old(self)@),
        ensures
            tape_wf(final(self)@),
            final(self)@ == whitespace_walk(old(self)@),
    {
        let ghost m0 = self@;
        loop
            invariant
                tape_wf(self@),
                whitespace_walk(m0) == whitespace_walk(self@),
            ensures
                self@ == whitespace_walk(m0),
            decreases self@.text.len() - self@.index,
        {
            if !(is_whitespace(self.current_char) && !self.check_escaped()) {
                break;
            }
            if self.next_char().is_none() {
                break;
            }
        }
    }

    /// Returns an error at the current position; rewinds first when a rewind
    /// index is given, so the error carries that index instead.
    pub fn assert_error(&mut self, rewind_index: Option<usize>) -> (r: TapeError)
        requires
            rewind_index matches Some(i) ==> i < old(self)@.text.len(),
        ensures
            rewind_index matches Some(i) ==> final(self)@ == tape_rewound(old(self)@, i as int)
                && r.spec_index() == i,
            rewind_index is None ==> final(self)@ == old(self)@ && r.spec_index() == old(
                self,
            )@.index,
    {
        match rewind_index {
            Some(index) => self.rewind_with_error(index),
            None => TapeError::new(self.index),
        }
    }

    /// Returns an error (rewinding first when a rewind index is given) unless
    /// the given character check_char-matches the current one.
    pub fn assert_char(&mut self, value: &char, rewind_index: Option<usize>) -> (r: TapeResult<
        (),
    >)
        requires
            rewind_index matches Some(i) ==> i < old(self)@.text.len(),
        ensures
            r is Ok <==> spec_check_char(old(self)@, *value),
            r is Ok ==> final(self)@ == old(self)@,
            r matches Err(e) ==> match rewind_index {
                Some(i) => final(self)@ == tape_rewound(old(self)@, i as int) && e.spec_index()
                    == i,
                None => final(self)@ == old(self)@ && e.spec_index() == old(self)@.index,
            },
    {
        if self.check_char(value) {
            Ok(())
        } else {
            Err(self.assert_error(rewind_index))
        }
    }

    /// Returns an error (rewinding first when a rewind index is given) unless
    /// the current character check_any-matches one of `chars`.
    pub fn assert_any(&mut self, chars: &[char], rewind_index: Option<usize>) -> (r: TapeResult<
        (),
    >)
        requires
            rewind_index matches Some(i) ==> i < old(self)@.text.len(),
        ensures
            r is Ok <==> spec_check_any(old(self)@, chars@),
            r is Ok ==> final(self)@ == old(self)@,
            r matches Err(e) ==> match rewind_index {
                Some(i) => final(self)@ == tape_rewound(old(self)@, i as int) && e.spec_index()
                    == i,
                None => final(self)@ == old(self)@ && e.spec_index() == old(self)@.index,
            },
    {
        if self.check_any(chars) {
            Ok(())
        } else {
            Err(self.assert_error(rewind_index))
        }
    }

    /// Returns an error (rewinding first when a rewind index is given) unless
    /// the literal `sequence` matches at the cursor.
    pub fn assert_sequence(&mut self, sequence: &[char], rewind_index: Option<usize>) -> (r:
        TapeResult<()>)
        requires
            tape_wf(old(self)@),
            old(self)@.index < old(self)@.text.len(),
            rewind_index matches Some(i) ==> i < old(self)@.text.len(),
        ensures
            tape_wf(final(self)@),
            r is Ok <==> (old(self)@.previous != ESCAPE && seq_matches_at(
                old(self)@.text,
                old(self)@.index,
                sequence@,
            )),
            r is Ok ==> final(self)@ == seq_success_state(old(self)@, sequence@),
            r matches Err(e) ==> match rewind_index {
                Some(i) => final(self)@ == tape_rewound(old(self)@, i as int) && e.spec_index()
                    == i,
                None => final(self)@ == old(self)@ && e.spec_index() == old(self)@.index,
            },
    {
        if self.check_sequence(sequence) {
            Ok(())
        } else {
            Err(self.assert_error(rewind_index))
        }
    }

    /// Returns an error (rewinding first when a rewind index is given) unless
    /// one of the literal sequences matches at the cursor.
    pub fn assert_any_sequence(&mut self, sequences: &[&[char]], rewind_index: Option<usize>) -> (r:
        TapeResult<()>)
        requires
            tape_wf(old(self)@),
            old(self)@.index < old(self)@.text.len(),
            rewind_index matches Some(i) ==> i < old(self)@.text.len(),
        ensures
            tape_wf(final(self)@),
            r is Ok <==> (old(self)@.previous != ESCAPE && first_match_from(
                old(self)@.text,
                old(self)@.index,
                views_of(sequences@),
                0,
            ) < sequences@.len()),
            r is Ok ==> final(self)@ == seq_success_state(
                old(self)@,
                sequences@[first_match_from(
                    old(self)@.text,
                    old(self)@.index,
                    views_of(sequences@),
                    0,
                )]@,
            ),
            r matches Err(e) ==> match rewind_index {
                Some(i) => final(self)@ == tape_rewound(old(self)@, i as int) && e.spec_index()
                    == i,
                None => final(self)@ == old(self)@ && e.spec_index() == old(self)@.index,
            },
    {
        if self.check_any_sequence(sequences) {
            Ok(())
        } else {
            Err(self.assert_error(rewind_index))
        }
    }

    /// Accumulates characters from the cursor until an unescaped character of
    /// `until` is reached (the run is returned with the cursor on the
    /// delimiter, or past the end when the text ran out first), unless an
    /// unescaped character of `err_at` is reached first: then the cursor is
    /// rewound to the start and the error carries the delimiter's index. At
    /// the starting position `until` wins over `err_at`; at every later
    /// position `err_at` wins.
    #[verifier::loop_isolation(false)]
    pub fn get_string_until_any(&mut self, until: &[char], err_at: &[char]) -> (r: TapeResult<
        String,
    >)
        requires
            tape_wf(old(self)@),
            old(self)@.index < old(self)@.text.len(),
        ensures
            tape_wf(final(self)@),
            r is Ok <==> !until_any_errs(old(self)@, until@, err_at@),
            r matches Ok(s) ==> s@ == old(self)@.text.subrange(
                old(self)@.index,
                until_any_stop(old(self)@, until@, err_at@),
            ) && final(self)@ == until_any_ok_state(old(self)@, until@, err_at@),
            r matches Err(e) ==> e.spec_index() == until_any_stop(old(self)@, until@, err_at@)
                && final(self)@ == until_any_err_state(old(self)@, until@, err_at@),
    {
        let ghost m0 = self@;
        let start_index = self.index;
        let mut result = String::new();
        if self.check_any(until) {
            return Ok(result);
        }
        if self.check_any(err_at) {
            return Err(TapeError::new(self.index));
        }
        push_char(&mut result, self.current_char);
        loop
            invariant
                tape_wf(self@),
                self@.text == m0.text,
                m0.index <= self@.index < m0.text.len(),
                self@.previous == (if self@.index == m0.index {
                    m0.previous
                } else {
                    m0.text[self@.index - 1]
                }),
                result@ == m0.text.subrange(m0.index, self@.index + 1),
                until_any_stop(m0, until@, err_at@) == scan_stop_any(
                    m0.text,
                    self@.index + 1,
                    until@,
                    err_at@,
                ),
            decreases m0.text.len() - self@.index,
        {
            match self.next_char() {
                None => {
                    return Ok(result);
                },
                Some(ch) => {
                    if self.check_any(err_at) {
                        let err = TapeError::new(self.index);
                        self.rewind(start_index);
                        return Err(err);
                    }
                    if self.check_any(until) {
                        return Ok(result);
                    }
                    push_char(&mut result, ch);
                },
            }
        }
    }

    /// Accumulates characters from the cursor until one of the `until`
    /// sequences matches at an unescaped position (the run is returned with
    /// the cursor parked on the matched sequence's last character, or past
    /// the end when the text ran out first), unless only a sequence of
    /// `err_at` matches there: then the cursor is rewound to the start and
    /// the error carries the position the sequence was found at. `until`
    /// wins over `err_at` at every position.
    #[verifier::loop_isolation(false)]
    pub fn get_string_until_sequence(&mut self, until: &[&[char]], err_at: &[&[char]]) -> (r:
        TapeResult<String>)
        requires
            tape_wf(old(self)@),
            old(self)@.index < old(self)@.text.len(),
        ensures
            tape_wf(final(self)@),
            r is Ok <==> !until_seq_errs(old(self)@, views_of(until@), views_of(err_at@)),
            r matches Ok(s) ==> s@ == old(self)@.text.subrange(
                old(self)@.index,
                until_seq_stop(old(self)@, views_of(until@), views_of(err_at@)),
            ) && final(self)@ == until_seq_ok_state(
                old(self)@,
                views_of(until@),
                views_of(err_at@),
            ),
            r matches Err(e) ==> e.spec_index() == until_seq_stop(
                old(self)@,
                views_of(until@),
                views_of(err_at@),
            ) && final(self)@ == until_seq_err_state(
                old(self)@,
                views_of(until@),
                views_of(err_at@),
            ),
    {
        let ghost m0 = self@;
        let ghost us = views_of(until@);
        let ghost es = views_of(err_at@);
        let start_index = self.index;
        let mut result = String::new();
        loop
            invariant
                tape_wf(self@),
                self@.text == m0.text,
                m0.index <= self@.index < m0.text.len(),
                self@.current == m0.text[self@.index],
                self@.previous == (if self@.index == m0.index {
                    m0.previous
                } else {
                    m0.text[self@.index - 1]
                }),
                result@ == m0.text.subrange(m0.index, self@.index),
                start_index == m0.index,
                until_seq_stop(m0, us, es) == (if self@.previous != ESCAPE && any_seq_matches_at(
                    m0.text,
                    self@.index,
                    us,
                    es,
                ) {
                    self@.index
                } else {
                    scan_stop_seq(m0.text, self@.index + 1, us, es)
                }),
            decreases m0.text.len() - self@.index,
        {
            let ghost pre = self@;
            let pos = self.index;
            if self.check_any_sequence(until) {
                proof {
                    let fm = first_match_from(m0.text, pre.index, us, 0);
                    lemma_first_match_from_bounds(m0.text, pre.index, us, 0);
                    assert(us.len() == until@.len());
                    assert(0 <= fm < us.len());
                    assert(us[fm] == until@[fm]@);
                    assert(pre == state_at(m0, pre.index));
                    assert(until_seq_stop(m0, us, es) == pre.index);
                }
                return Ok(result);
            }
            if self.check_any_sequence(err_at) {
                proof {
                    let fm = first_match_from(m0.text, pre.index, es, 0);
                    lemma_first_match_from_bounds(m0.text, pre.index, es, 0);
                    assert(es.len() == err_at@.len());
                    assert(0 <= fm < es.len());
                    assert(es[fm] == err_at@[fm]@);
                    assert(pre == state_at(m0, pre.index));
                    assert(until_seq_stop(m0, us, es) == pre.index);
                }
                let err = TapeError::new(pos);
                self.rewind(start_index);
                return Err(err);
            }
            push_char(&mut result, self.current_char);
            if self.next_char().is_none() {
                return Ok(result);
            }
        }
    }
}

} // verus!
