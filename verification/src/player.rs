//! The guessing engine: what the feedback on earlier guesses says about the
//! hidden word, and which of the remaining words to try next.

use vstd::prelude::*;
use crate::matcher::compile_pattern;
use crate::matcher::pattern_compiles;
use crate::matcher::pattern_matches;
use crate::matcher::regex_accepts;
use crate::matcher::regex_is_match;
use crate::matcher::regex_pattern;
use crate::text::chars_of;
use crate::text::has_char;
use crate::text::push_chars;

verus! {

/// Feedback on one letter of a guessed word.
#[derive(Debug, PartialEq, Eq, Copy, Clone, Structural)]
pub enum Indicator {
    /// The letter does not occur at this position.
    ABSENT,
    /// The letter occurs in the word, at another position.
    INCORRECT,
    /// The letter stands at this position.
    CORRECT,
}

impl Indicator {
    /// The number that stands for this indicator on the wire.
    pub open spec fn code(self) -> u8 {
        match self {
            Indicator::ABSENT => 0,
            Indicator::INCORRECT => 1,
            Indicator::CORRECT => 2,
        }
    }

    /// The indicator that `val` stands for; `val` itself comes back when it
    /// stands for none.
    pub fn try_from(val: u8) -> (r: Result<Indicator, u8>)
        ensures
            val <= 2 ==> r is Ok && r->Ok_0.code() == val,
            val > 2 ==> r == Err::<Indicator, u8>(val),
    {
        if val == 0 {
            Ok(Indicator::ABSENT)
        } else if val == 1 {
            Ok(Indicator::INCORRECT)
        } else if val == 2 {
            Ok(Indicator::CORRECT)
        } else {
            Err(val)
        }
    }
}

/// A guessed word with the feedback it drew, one indicator per letter.
#[derive(Debug, PartialEq, Eq, Clone)]
pub struct Guess {
    pub word: String,
    pub marks: Vec<Indicator>,
}

/// The mathematical value of a [`Guess`].
pub ghost struct GuessModel {
    pub word: Seq<char>,
    pub marks: Seq<Indicator>,
}

impl View for Guess {
    type V = GuessModel;

    open spec fn view(&self) -> GuessModel {
        GuessModel { word: self.word@, marks: self.marks@ }
    }
}

/// A player: the name to announce and the words to guess from.
pub struct Player {
    pub username: String,
    pub word_list: Vec<String>,
}

/// The values of a sequence of guesses.
pub open spec fn history_of(guesses: Seq<Guess>) -> Seq<GuessModel> {
    guesses.map_values(|g: Guess| g@)
}

/// The character sequences of a list of words.
pub open spec fn words_of(words: Seq<String>) -> Seq<Seq<char>> {
    words.map_values(|w: String| w@)
}

/// Position `i` of `g` carries both a letter and the indicator `ind`.
pub open spec fn marked(g: GuessModel, i: int, ind: Indicator) -> bool {
    0 <= i < g.word.len() && i < g.marks.len() && g.marks[i] == ind
}

/// How many positions of `g` carry both a letter and an indicator.
pub open spec fn span(g: GuessModel) -> nat {
    if g.word.len() <= g.marks.len() {
        g.word.len()
    } else {
        g.marks.len()
    }
}

/// The number of positions that the history speaks of: the longest span
/// among its guesses.
pub open spec fn width(h: Seq<GuessModel>) -> nat
    decreases h.len(),
{
    if h.len() == 0 {
        0
    } else if span(h.last()) > width(h.drop_last()) {
        span(h.last())
    } else {
        width(h.drop_last())
    }
}

/// The letter that the earliest guess marking position `i` as correct has
/// there, if any guess does.
pub open spec fn fixed_letter(h: Seq<GuessModel>, i: int) -> Option<char>
    decreases h.len(),
{
    if h.len() == 0 {
        None
    } else {
        match fixed_letter(h.drop_last(), i) {
            Some(c) => Some(c),
            None => if marked(h.last(), i, Indicator::CORRECT) {
                Some(h.last().word[i])
            } else {
                None
            },
        }
    }
}

/// `letters` with `c` appended unless it is there already.
pub open spec fn with_letter(letters: Seq<char>, c: char) -> Seq<char> {
    if letters.contains(c) {
        letters
    } else {
        letters.push(c)
    }
}

/// The letters marked absent at position `i`, each once, in the order in
/// which the history first shows them.
pub open spec fn excluded_letters(h: Seq<GuessModel>, i: int) -> Seq<char>
    decreases h.len(),
{
    if h.len() == 0 {
        Seq::empty()
    } else if marked(h.last(), i, Indicator::ABSENT) {
        with_letter(excluded_letters(h.drop_last(), i), h.last().word[i])
    } else {
        excluded_letters(h.drop_last(), i)
    }
}

/// `acc` extended by the letters that `g` marks as misplaced among its first
/// `n` positions, each added once.
pub open spec fn misplaced_letters(g: GuessModel, n: int, acc: Seq<char>) -> Seq<char>
    decreases n,
{
    if n <= 0 {
        acc
    } else if marked(g, n - 1, Indicator::INCORRECT) {
        with_letter(misplaced_letters(g, n - 1, acc), g.word[n - 1])
    } else {
        misplaced_letters(g, n - 1, acc)
    }
}

/// The letters that some guess marks as misplaced, each once, in the order in
/// which the history first shows them.
pub open spec fn required_letters(h: Seq<GuessModel>) -> Seq<char>
    decreases h.len(),
{
    if h.len() == 0 {
        Seq::empty()
    } else {
        misplaced_letters(h.last(), span(h.last()) as int, required_letters(h.drop_last()))
    }
}

/// What is known about one position of the hidden word.
#[derive(Debug, PartialEq, Eq, Clone)]
pub enum PositionRule {
    /// The position holds this letter.
    Fixed(char),
    /// The position holds none of these letters.
    Excluded(Vec<char>),
}

/// The mathematical value of a [`PositionRule`].
pub ghost enum RuleModel {
    Fixed(char),
    Excluded(Seq<char>),
}

impl View for PositionRule {
    type V = RuleModel;

    open spec fn view(&self) -> RuleModel {
        match self {
            PositionRule::Fixed(c) => RuleModel::Fixed(*c),
            PositionRule::Excluded(letters) => RuleModel::Excluded(letters@),
        }
    }
}

/// What a history says about the hidden word: a rule for each position, and
/// the letters that must occur somewhere.
#[derive(Debug, PartialEq, Eq, Clone)]
pub struct Constraints {
    pub positions: Vec<PositionRule>,
    pub required: Vec<char>,
}

/// The mathematical value of [`Constraints`].
pub ghost struct ConstraintsModel {
    pub positions: Seq<RuleModel>,
    pub required: Seq<char>,
}

/// The values of a sequence of position rules.
pub open spec fn rules_of(rules: Seq<PositionRule>) -> Seq<RuleModel> {
    rules.map_values(|r: PositionRule| r@)
}

impl View for Constraints {
    type V = ConstraintsModel;

    open spec fn view(&self) -> ConstraintsModel {
        ConstraintsModel { positions: rules_of(self.positions@), required: self.required@ }
    }
}

/// The rule that the history gives position `i`: a correct mark fixes the
/// letter and overrides every absent mark there.
pub open spec fn rule_at(h: Seq<GuessModel>, i: int) -> RuleModel {
    match fixed_letter(h, i) {
        Some(c) => RuleModel::Fixed(c),
        None => RuleModel::Excluded(excluded_letters(h, i)),
    }
}

/// The constraints that a history yields.
pub open spec fn derived(h: Seq<GuessModel>) -> ConstraintsModel {
    ConstraintsModel {
        positions: Seq::new(width(h), |i: int| rule_at(h, i)),
        required: required_letters(h),
    }
}

/// The letters of each guessed word, as indexable vectors.
fn letters_of(history: &Vec<Guess>) -> (r: Vec<Vec<char>>)
    ensures
        r.len() == history.len(),
        forall|k: int| 0 <= k < r.len() ==> (#[trigger] r@[k])@ == history@[k].word@,
{
    let mut out: Vec<Vec<char>> = Vec::new();
    let mut k: usize = 0;
    while k < history.len()
        invariant
            k <= history.len(),
            out.len() == k,
            forall|j: int| 0 <= j < k ==> (#[trigger] out@[j])@ == history@[j].word@,
        decreases history.len() - k,
    {
        out.push(chars_of(history[k].word.as_str()));
        k += 1;
    }
    out
}

/// The number of positions that the history speaks of.
fn width_of(history: &Vec<Guess>, letters: &Vec<Vec<char>>) -> (r: usize)
    requires
        letters.len() == history.len(),
        forall|k: int| 0 <= k < letters.len() ==> (#[trigger] letters@[k])@ == history@[k].word@,
    ensures
        r == width(history_of(history@)),
{
    let ghost h = history_of(history@);
    let mut best: usize = 0;
    let mut k: usize = 0;
    while k < history.len()
        invariant
            k <= history.len(),
            letters.len() == history.len(),
            forall|j: int| 0 <= j < letters.len() ==> (#[trigger] letters@[j])@ == history@[j].word@,
            h == history_of(history@),
            best == width(h.take(k as int)),
        decreases history.len() - k,
    {
        let n: usize = letters[k].len();
        let m: usize = history[k].marks.len();
        let s: usize = if n <= m { n } else { m };
        proof {
            assert(h.take(k + 1).drop_last() == h.take(k as int));
            assert(h.take(k + 1).last() == history@[k as int]@);
            assert(letters@[k as int]@ == history@[k as int].word@);
        }
        if s > best {
            best = s;
        }
        k += 1;
    }
    proof {
        assert(h.take(history.len() as int) == h);
    }
    best
}

/// The rule that the history gives position `i`.
fn rule_for(history: &Vec<Guess>, letters: &Vec<Vec<char>>, i: usize) -> (r: PositionRule)
    requires
        letters.len() == history.len(),
        forall|k: int| 0 <= k < letters.len() ==> (#[trigger] letters@[k])@ == history@[k].word@,
    ensures
        r@ == rule_at(history_of(history@), i as int),
{
    let ghost h = history_of(history@);
    let mut fixed: Option<char> = None;
    let mut wrong: Vec<char> = Vec::new();
    let mut k: usize = 0;
    while k < history.len()
        invariant
            k <= history.len(),
            letters.len() == history.len(),
            forall|j: int| 0 <= j < letters.len() ==> (#[trigger] letters@[j])@ == history@[j].word@,
            h == history_of(history@),
            fixed == fixed_letter(h.take(k as int), i as int),
            wrong@ == excluded_letters(h.take(k as int), i as int),
        decreases history.len() - k,
    {
        proof {
            assert(h.take(k + 1).drop_last() == h.take(k as int));
            assert(h.take(k + 1).last() == history@[k as int]@);
            assert(letters@[k as int]@ == history@[k as int].word@);
        }
        if i < letters[k].len() && i < history[k].marks.len() {
            let c: char = letters[k][i];
            match history[k].marks[i] {
                Indicator::CORRECT => {
                    if fixed.is_none() {
                        fixed = Some(c);
                    }
                },
                Indicator::ABSENT => {
                    if !has_char(&wrong, c) {
                        wrong.push(c);
                    }
                },
                Indicator::INCORRECT => {},
            }
        }
        k += 1;
    }
    proof {
        assert(h.take(history.len() as int) == h);
    }
    match fixed {
        Some(c) => PositionRule::Fixed(c),
        None => PositionRule::Excluded(wrong),
    }
}

/// The letters that some guess marks as misplaced.
fn required_for(history: &Vec<Guess>, letters: &Vec<Vec<char>>) -> (r: Vec<char>)
    requires
        letters.len() == history.len(),
        forall|k: int| 0 <= k < letters.len() ==> (#[trigger] letters@[k])@ == history@[k].word@,
    ensures
        r@ == required_letters(history_of(history@)),
{
    let ghost h = history_of(history@);
    let mut found: Vec<char> = Vec::new();
    let mut k: usize = 0;
    while k < history.len()
        invariant
            k <= history.len(),
            letters.len() == history.len(),
            forall|j: int| 0 <= j < letters.len() ==> (#[trigger] letters@[j])@ == history@[j].word@,
            h == history_of(history@),
            found@ == required_letters(h.take(k as int)),
        decreases history.len() - k,
    {
        let n: usize = letters[k].len();
        let m: usize = history[k].marks.len();
        let s: usize = if n <= m { n } else { m };
        let ghost g = history@[k as int]@;
        let ghost before = found@;
        proof {
            assert(h.take(k + 1).drop_last() == h.take(k as int));
            assert(h.take(k + 1).last() == g);
            assert(letters@[k as int]@ == g.word);
        }
        let mut i: usize = 0;
        while i < s
            invariant
                i <= s,
                s == span(g),
                k < history.len(),
                letters.len() == history.len(),
                g == history@[k as int]@,
                letters@[k as int]@ == g.word,
                found@ == misplaced_letters(g, i as int, before),
            decreases s - i,
        {
            let c: char = letters[k][i];
            match history[k].marks[i] {
                Indicator::INCORRECT => {
                    if !has_char(&found, c) {
                        found.push(c);
                    }
                },
                _ => {},
            }
            i += 1;
        }
        k += 1;
    }
    proof {
        assert(h.take(history.len() as int) == h);
    }
    found
}

/// Derives the constraints that the history yields: for each position the
/// letter fixed by a correct mark or, failing that, the letters marked absent
/// there; and the letters marked misplaced anywhere.
pub fn derive_constraints(history: &Vec<Guess>) -> (r: Constraints)
    ensures
        r@ == derived(history_of(history@)),
{
    let ghost h = history_of(history@);
    let letters: Vec<Vec<char>> = letters_of(history);
    let w: usize = width_of(history, &letters);
    let mut positions: Vec<PositionRule> = Vec::new();
    let mut i: usize = 0;
    while i < w
        invariant
            i <= w,
            w == width(h),
            h == history_of(history@),
            letters.len() == history.len(),
            forall|k: int| 0 <= k < letters.len() ==> (#[trigger] letters@[k])@ == history@[k].word@,
            positions.len() == i,
            forall|j: int| 0 <= j < i ==> (#[trigger] positions@[j])@ == rule_at(h, j),
        decreases w - i,
    {
        positions.push(rule_for(history, &letters, i));
        i += 1;
    }
    let required: Vec<char> = required_for(history, &letters);
    let r = Constraints { positions, required };
    proof {
        assert(r@.positions =~= derived(h).positions);
    }
    r
}

/// The body of a character class for `letters`: the letters themselves, or
/// the whole lower-case range when there are none.
pub open spec fn char_options(letters: Seq<char>) -> Seq<char> {
    if letters.len() == 0 {
        seq!['a', '-', 'z']
    } else {
        letters
    }
}

/// The pattern text of one rule: the fixed letter itself; a class that
/// refuses the excluded letters; or, with nothing excluded, a class that
/// takes any lower-case letter.
pub open spec fn rule_text(rule: RuleModel) -> Seq<char> {
    match rule {
        RuleModel::Fixed(c) => seq![c],
        RuleModel::Excluded(letters) => if letters.len() == 0 {
            seq!['['] + char_options(letters) + seq![']']
        } else {
            seq!['[', '^'] + char_options(letters) + seq![']']
        },
    }
}

/// The pattern texts of the rules, one after the other.
pub open spec fn rules_text(rules: Seq<RuleModel>) -> Seq<char>
    decreases rules.len(),
{
    if rules.len() == 0 {
        Seq::empty()
    } else {
        rules_text(rules.drop_last()) + rule_text(rules.last())
    }
}

/// The pattern of the position rules: their texts, one after the other. A
/// word meets the rules where the pattern is found in it.
pub open spec fn pattern_text(rules: Seq<RuleModel>) -> Seq<char> {
    rules_text(rules)
}

/// `word` holds every one of the `required` letters somewhere.
pub open spec fn has_all(word: Seq<char>, required: Seq<char>) -> bool {
    forall|j: int| 0 <= j < required.len() ==> word.contains(#[trigger] required[j])
}

/// `word` meets the constraints: the pattern of the position rules is found
/// in it, and it holds every required letter.
pub open spec fn admits(c: ConstraintsModel, word: Seq<char>) -> bool {
    pattern_matches(pattern_text(c.positions), word) && has_all(word, c.required)
}

/// The words that meet the constraints, in their order.
pub open spec fn admitted(words: Seq<Seq<char>>, c: ConstraintsModel) -> Seq<Seq<char>>
    decreases words.len(),
{
    if words.len() == 0 {
        Seq::empty()
    } else if admits(c, words.last()) {
        admitted(words.drop_last(), c).push(words.last())
    } else {
        admitted(words.drop_last(), c)
    }
}

/// The words whose flag in `matched` is set and that hold every required
/// letter, in their order. A word without a flag counts as unmatched.
pub open spec fn survivors(words: Seq<Seq<char>>, matched: Seq<bool>, required: Seq<char>) -> Seq<
    Seq<char>,
>
    decreases words.len(),
{
    if words.len() == 0 {
        Seq::empty()
    } else if words.len() <= matched.len() && matched[words.len() - 1] && has_all(
        words.last(),
        required,
    ) {
        survivors(words.drop_last(), matched, required).push(words.last())
    } else {
        survivors(words.drop_last(), matched, required)
    }
}

/// Why no guess could be made.
#[derive(Debug, PartialEq, Eq, Copy, Clone, Structural)]
pub enum GuessError {
    /// No word is left that meets the constraints.
    NoCandidates,
    /// The letters of the history do not make a pattern that compiles.
    InvalidPattern,
}

/// Taking the last of `kept` as the guess and leaving the others.
pub open spec fn last_of(kept: Seq<Seq<char>>) -> Result<(Seq<char>, Seq<Seq<char>>), GuessError> {
    if kept.len() == 0 {
        Err(GuessError::NoCandidates)
    } else {
        Ok((kept.last(), kept.drop_last()))
    }
}

/// The next guess and the words that remain. With no history the last word
/// is taken unfiltered; otherwise the last of the words that meet the
/// constraints derived from the history, and the other such words remain.
pub open spec fn selection(h: Seq<GuessModel>, words: Seq<Seq<char>>) -> Result<
    (Seq<char>, Seq<Seq<char>>),
    GuessError,
> {
    if h.len() == 0 {
        last_of(words)
    } else if !pattern_compiles(pattern_text(derived(h).positions)) {
        Err(GuessError::InvalidPattern)
    } else {
        last_of(admitted(words, derived(h)))
    }
}

/// An outcome of guessing agrees with its model.
pub open spec fn outcome_is(
    r: Result<(String, Vec<String>), GuessError>,
    m: Result<(Seq<char>, Seq<Seq<char>>), GuessError>,
) -> bool {
    match m {
        Ok((word, rest)) => r is Ok && r->Ok_0.0@ == word && words_of(r->Ok_0.1@) == rest,
        Err(e) => r is Err && r->Err_0 == e,
    }
}

/// The text of a character class body for `collection`: its letters in
/// order, or `a-z` when it is empty.
pub fn generate_char_options(collection: &Vec<char>) -> (r: String)
    ensures
        r@ == char_options(collection@),
{
    if collection.len() == 0 {
        proof {
            reveal_strlit("a-z");
            assert("a-z"@ =~= seq!['a', '-', 'z']);
        }
        String::from_str("a-z")
    } else {
        let mut out: String = String::new();
        push_chars(&mut out, collection);
        proof {
            assert(Seq::<char>::empty() + collection@ =~= collection@);
        }
        out
    }
}

/// The pattern of the position rules: their texts, one after the other.
pub fn pattern_for(rules: &Vec<PositionRule>) -> (r: String)
    ensures
        r@ == pattern_text(rules_of(rules@)),
{
    let ghost m = rules_of(rules@);
    let mut out: String = String::new();
    let mut i: usize = 0;
    while i < rules.len()
        invariant
            i <= rules.len(),
            m == rules_of(rules@),
            out@ == rules_text(m.take(i as int)),
        decreases rules.len() - i,
    {
        let ghost before = out@;
        proof {
            assert(m.take(i + 1).drop_last() == m.take(i as int));
            assert(m.take(i + 1).last() == rules@[i as int]@);
        }
        match &rules[i] {
            PositionRule::Fixed(c) => {
                out.push(*c);
                proof {
                    assert(before.push(*c) =~= before + seq![*c]);
                }
            },
            PositionRule::Excluded(letters) => {
                out.push('[');
                if letters.len() > 0 {
                    out.push('^');
                }
                let body: String = generate_char_options(letters);
                out.append(body.as_str());
                out.push(']');
                proof {
                    if letters.len() > 0 {
                        assert(out@ =~= before + (seq!['[', '^'] + char_options(letters@) + seq![
                            ']',
                        ]));
                    } else {
                        assert(out@ =~= before + (seq!['['] + char_options(letters@) + seq![']']));
                    }
                }
            },
        }
        proof {
            assert(out@ =~= rules_text(m.take(i + 1)));
        }
        i += 1;
    }
    proof {
        assert(m.take(rules.len() as int) == m);
    }
    out
}

/// Compiles the pattern of the constraints that the guesses yield, and
/// gives it with the letters that a word must hold. Fails where the pattern
/// does not compile.
pub fn generate_regex(from_guesses: Vec<Guess>) -> (r: Result<(regex::Regex, Vec<char>), GuessError>)
    ensures
        r is Ok <==> pattern_compiles(pattern_text(derived(history_of(from_guesses@)).positions)),
        r is Ok ==> regex_pattern(r->Ok_0.0) == pattern_text(
            derived(history_of(from_guesses@)).positions,
        ) && r->Ok_0.1@ == derived(history_of(from_guesses@)).required,
        r is Ok ==> forall|text: Seq<char>|
            #[trigger] regex_accepts(r->Ok_0.0, text) == pattern_matches(
                pattern_text(derived(history_of(from_guesses@)).positions),
                text,
            ),
        r is Err ==> r->Err_0 == GuessError::InvalidPattern,
{
    let constraints: Constraints = derive_constraints(&from_guesses);
    let pattern: String = pattern_for(&constraints.positions);
    match compile_pattern(pattern.as_str()) {
        Ok(re) => Ok((re, constraints.required)),
        Err(_) => Err(GuessError::InvalidPattern),
    }
}

/// Whether `word` holds every one of the `required` letters.
pub fn holds_all(word: &str, required: &Vec<char>) -> (r: bool)
    ensures
        r == has_all(word@, required@),
{
    let letters: Vec<char> = chars_of(word);
    let mut j: usize = 0;
    while j < required.len()
        invariant
            j <= required.len(),
            letters@ == word@,
            forall|t: int| 0 <= t < j ==> word@.contains(#[trigger] required@[t]),
        decreases required.len() - j,
    {
        if !has_char(&letters, required[j]) {
            return false;
        }
        j += 1;
    }
    true
}

/// Keeps the words whose flag in `matched` is set and that hold every
/// required letter, takes the last of them as the guess and leaves the
/// others. Fails where none is kept.
pub fn pick_last(words: Vec<String>, matched: &Vec<bool>, required: &Vec<char>) -> (r: Result<
    (String, Vec<String>),
    GuessError,
>)
    ensures
        outcome_is(r, last_of(survivors(words_of(words@), matched@, required@))),
{
    let ghost w = words_of(words@);
    let mut kept: Vec<String> = Vec::new();
    let mut i: usize = 0;
    while i < words.len()
        invariant
            i <= words.len(),
            w == words_of(words@),
            words_of(kept@) == survivors(w.take(i as int), matched@, required@),
        decreases words.len() - i,
    {
        proof {
            assert(w.take(i + 1).drop_last() == w.take(i as int));
            assert(w.take(i + 1).last() == words@[i as int]@);
        }
        if i < matched.len() && matched[i] && holds_all(words[i].as_str(), required) {
            let ghost before = kept@;
            kept.push(words[i].clone());
            proof {
                assert(words_of(kept@) =~= words_of(before).push(words@[i as int]@));
            }
        }
        i += 1;
    }
    proof {
        assert(w.take(words.len() as int) == w);
    }
    let ghost all = kept@;
    match kept.pop() {
        Some(word) => {
            proof {
                assert(words_of(kept@) =~= words_of(all).drop_last());
            }
            Ok((word, kept))
        },
        None => Err(GuessError::NoCandidates),
    }
}

/// For each word, whether the compiled pattern is found in it.
fn match_flags(re: &regex::Regex, words: &Vec<String>) -> (r: Vec<bool>)
    ensures
        r.len() == words.len(),
        forall|i: int| 0 <= i < r.len() ==> #[trigger] r@[i] == regex_accepts(*re, words@[i]@),
{
    let mut flags: Vec<bool> = Vec::new();
    let mut i: usize = 0;
    while i < words.len()
        invariant
            i <= words.len(),
            flags.len() == i,
            forall|j: int| 0 <= j < i ==> #[trigger] flags@[j] == regex_accepts(*re, words@[j]@),
        decreases words.len() - i,
    {
        flags.push(regex_is_match(re, words[i].as_str()));
        i += 1;
    }
    flags
}

/// Flags that record the pattern's verdict on each word keep exactly the
/// words that meet the constraints.
pub proof fn lemma_flags_keep_admitted(words: Seq<Seq<char>>, matched: Seq<bool>, c: ConstraintsModel)
    requires
        words.len() <= matched.len(),
        forall|i: int|
            0 <= i < words.len() ==> #[trigger] matched[i] == pattern_matches(
                pattern_text(c.positions),
                words[i],
            ),
    ensures
        survivors(words, matched, c.required) == admitted(words, c),
    decreases words.len(),
{
    if words.len() > 0 {
        lemma_flags_keep_admitted(words.drop_last(), matched, c);
        assert(matched[words.len() - 1] == pattern_matches(pattern_text(c.positions), words.last()));
    }
}

/// Returns a guess and the remaining words. With no earlier guess the last
/// word is taken as it stands. Otherwise the words are narrowed to those
/// that meet the constraints derived from the earlier guesses; the last of
/// them is the guess and the others remain.
pub fn make_guess(previous_guesses: Vec<Guess>, word_options: Vec<String>) -> (r: Result<
    (String, Vec<String>),
    GuessError,
>)
    ensures
        outcome_is(r, selection(history_of(previous_guesses@), words_of(word_options@))),
{
    let ghost h = history_of(previous_guesses@);
    let ghost w = words_of(word_options@);
    if previous_guesses.len() == 0 {
        let mut remaining: Vec<String> = word_options;
        match remaining.pop() {
            Some(word) => {
                proof {
                    assert(words_of(remaining@) =~= w.drop_last());
                }
                Ok((word, remaining))
            },
            None => Err(GuessError::NoCandidates),
        }
    } else {
        match generate_regex(previous_guesses) {
            Ok((re, required)) => {
                let matched: Vec<bool> = match_flags(&re, &word_options);
                proof {
                    assert forall|i: int| 0 <= i < w.len() implies #[trigger] matched@[i]
                        == pattern_matches(pattern_text(derived(h).positions), w[i]) by {
                        assert(matched@[i] == regex_accepts(re, word_options@[i]@));
                    }
                    lemma_flags_keep_admitted(w, matched@, derived(h));
                }
                pick_last(word_options, &matched, &required)
            },
            Err(e) => Err(e),
        }
    }
}

/// A position that some guess marks lies within the width of the history.
pub proof fn lemma_marked_within_width(h: Seq<GuessModel>, k: int, i: int, ind: Indicator)
    requires
        0 <= k < h.len(),
        marked(h[k], i, ind),
    ensures
        0 <= i < width(h),
    decreases h.len(),
{
    if k < h.len() - 1 {
        assert(h.drop_last()[k] == h[k]);
        lemma_marked_within_width(h.drop_last(), k, i, ind);
    }
}

/// The fixed letter of a position is the letter of the earliest guess that
/// marks the position as correct.
pub proof fn lemma_fixed_letter_is_earliest(h: Seq<GuessModel>, k: int, i: int)
    requires
        0 <= k < h.len(),
        marked(h[k], i, Indicator::CORRECT),
        forall|j: int| 0 <= j < k ==> !marked(#[trigger] h[j], i, Indicator::CORRECT),
    ensures
        fixed_letter(h, i) == Some(h[k].word[i]),
    decreases h.len(),
{
    if k < h.len() - 1 {
        assert(h.drop_last()[k] == h[k]);
        assert forall|j: int| 0 <= j < k implies !marked(
            #[trigger] h.drop_last()[j],
            i,
            Indicator::CORRECT,
        ) by {
            assert(h.drop_last()[j] == h[j]);
        }
        lemma_fixed_letter_is_earliest(h.drop_last(), k, i);
    } else {
        lemma_no_correct_mark_no_fixed_letter(h.drop_last(), i);
    }
}

/// A position that no guess marks as correct has no fixed letter.
pub proof fn lemma_no_correct_mark_no_fixed_letter(h: Seq<GuessModel>, i: int)
    requires
        forall|j: int| 0 <= j < h.len() ==> !marked(#[trigger] h[j], i, Indicator::CORRECT),
    ensures
        fixed_letter(h, i) is None,
    decreases h.len(),
{
    if h.len() > 0 {
        assert forall|j: int| 0 <= j < h.len() - 1 implies !marked(
            #[trigger] h.drop_last()[j],
            i,
            Indicator::CORRECT,
        ) by {
            assert(h.drop_last()[j] == h[j]);
        }
        lemma_no_correct_mark_no_fixed_letter(h.drop_last(), i);
        assert(h.last() == h[h.len() - 1]);
    }
}

/// A fixed letter comes from a guess that marks the position as correct.
pub proof fn lemma_fixed_letter_has_source(h: Seq<GuessModel>, i: int) -> (k: int)
    requires
        fixed_letter(h, i) is Some,
    ensures
        0 <= k < h.len(),
        marked(h[k], i, Indicator::CORRECT),
        fixed_letter(h, i) == Some(h[k].word[i]),
    decreases h.len(),
{
    if fixed_letter(h.drop_last(), i) is Some {
        let k = lemma_fixed_letter_has_source(h.drop_last(), i);
        assert(h.drop_last()[k] == h[k]);
        k
    } else {
        h.len() - 1
    }
}

/// Dominance of correct marks: when the guess at `k` is the earliest that
/// marks position `i` as correct, the derived rule at `i` is exactly the
/// letter of that guess there, whatever absent marks the history holds at
/// `i`, before or after.
pub proof fn correct_mark_dominates(h: Seq<GuessModel>, k: int, i: int)
    requires
        0 <= k < h.len(),
        marked(h[k], i, Indicator::CORRECT),
        forall|j: int| 0 <= j < k ==> !marked(#[trigger] h[j], i, Indicator::CORRECT),
    ensures
        0 <= i < derived(h).positions.len(),
        derived(h).positions[i] == RuleModel::Fixed(h[k].word[i]),
{
    lemma_marked_within_width(h, k, i, Indicator::CORRECT);
    lemma_fixed_letter_is_earliest(h, k, i);
}

/// A position is fixed exactly when some guess marks it as correct, and
/// then to the letter that such a guess has there; otherwise its rule
/// excludes letters.
pub proof fn fixed_iff_marked_correct(h: Seq<GuessModel>, i: int)
    requires
        0 <= i < derived(h).positions.len(),
    ensures
        derived(h).positions[i] is Fixed <==> exists|k: int|
            0 <= k < h.len() && marked(#[trigger] h[k], i, Indicator::CORRECT),
        derived(h).positions[i] is Fixed ==> exists|k: int|
            0 <= k < h.len() && marked(#[trigger] h[k], i, Indicator::CORRECT)
                && derived(h).positions[i] == RuleModel::Fixed(h[k].word[i]),
{
    if fixed_letter(h, i) is Some {
        let k = lemma_fixed_letter_has_source(h, i);
        assert(marked(h[k], i, Indicator::CORRECT));
    } else {
        if exists|k: int| 0 <= k < h.len() && marked(#[trigger] h[k], i, Indicator::CORRECT) {
            let k = choose|k: int| 0 <= k < h.len() && marked(#[trigger] h[k], i, Indicator::CORRECT);
            lemma_earliest_correct_mark(h, k, i);
        }
    }
}

/// Where some guess marks position `i` as correct, the position has a
/// fixed letter.
pub proof fn lemma_earliest_correct_mark(h: Seq<GuessModel>, k: int, i: int)
    requires
        0 <= k < h.len(),
        marked(h[k], i, Indicator::CORRECT),
    ensures
        fixed_letter(h, i) is Some,
    decreases h.len(),
{
    if k < h.len() - 1 {
        assert(h.drop_last()[k] == h[k]);
        lemma_earliest_correct_mark(h.drop_last(), k, i);
    }
}

/// Every admitted word is one of the words, and meets the constraints.
pub proof fn lemma_admitted_members(words: Seq<Seq<char>>, c: ConstraintsModel, j: int)
    requires
        0 <= j < admitted(words, c).len(),
    ensures
        words.contains(admitted(words, c)[j]),
        admits(c, admitted(words, c)[j]),
        admitted(words, c).len() <= words.len(),
    decreases words.len(),
{
    if words.len() > 0 {
        let rest = admitted(words.drop_last(), c);
        lemma_admitted_length(words.drop_last(), c);
        if j < rest.len() {
            lemma_admitted_members(words.drop_last(), c, j);
            let t = choose|t: int| 0 <= t < words.drop_last().len() && words.drop_last()[t] == rest[j];
            assert(words[t] == rest[j]);
        } else {
            assert(words[words.len() - 1] == words.last());
        }
    }
}

/// No more words are admitted than there are.
pub proof fn lemma_admitted_length(words: Seq<Seq<char>>, c: ConstraintsModel)
    ensures
        admitted(words, c).len() <= words.len(),
    decreases words.len(),
{
    if words.len() > 0 {
        lemma_admitted_length(words.drop_last(), c);
    }
}

/// A word that meets the constraints is among the admitted ones.
pub proof fn lemma_admitted_complete(words: Seq<Seq<char>>, c: ConstraintsModel, i: int)
    requires
        0 <= i < words.len(),
        admits(c, words[i]),
    ensures
        admitted(words, c).contains(words[i]),
    decreases words.len(),
{
    let rest = admitted(words.drop_last(), c);
    if i < words.len() - 1 {
        assert(words.drop_last()[i] == words[i]);
        lemma_admitted_complete(words.drop_last(), c, i);
        let t = choose|t: int| 0 <= t < rest.len() && rest[t] == words[i];
        assert(admitted(words, c)[t] == words[i]);
    } else {
        assert(admitted(words, c) == rest.push(words.last()));
        assert(admitted(words, c)[rest.len() as int] == words[i]);
    }
}

/// The guess is one of the candidates and the candidates shrink. With a
/// history, the guess and every remaining word meet the derived constraints,
/// and guessing fails for want of candidates exactly when the pattern
/// compiles and no candidate meets the constraints; where the pattern does
/// not compile it fails on that account. Without a history the last
/// candidate is the guess, and guessing fails exactly when there is none.
pub proof fn selection_is_sound(h: Seq<GuessModel>, words: Seq<Seq<char>>)
    ensures
        selection(h, words) is Ok ==> {
            let (word, rest) = selection(h, words)->Ok_0;
            &&& words.contains(word)
            &&& rest.len() < words.len()
            &&& forall|j: int| 0 <= j < rest.len() ==> words.contains(#[trigger] rest[j])
            &&& h.len() > 0 ==> admits(derived(h), word)
            &&& h.len() > 0 ==> forall|j: int|
                0 <= j < rest.len() ==> admits(derived(h), #[trigger] rest[j])
        },
        h.len() == 0 ==> (selection(h, words) is Err <==> words.len() == 0),
        h.len() == 0 && words.len() > 0 ==> selection(h, words) == Ok::<
            (Seq<char>, Seq<Seq<char>>),
            GuessError,
        >((words.last(), words.drop_last())),
        h.len() > 0 && pattern_compiles(pattern_text(derived(h).positions)) ==> (selection(h, words)
            is Err <==> forall|i: int| 0 <= i < words.len() ==> !admits(derived(h), #[trigger] words[i])),
        selection(h, words) == Err::<(Seq<char>, Seq<Seq<char>>), GuessError>(
            GuessError::InvalidPattern,
        ) <==> h.len() > 0 && !pattern_compiles(pattern_text(derived(h).positions)),
        selection(h, words) is Err ==> selection(h, words)->Err_0 == GuessError::NoCandidates
            || selection(h, words)->Err_0 == GuessError::InvalidPattern,
{
    let c = derived(h);
    if h.len() == 0 {
        if words.len() > 0 {
            assert(words[words.len() - 1] == words.last());
            assert forall|j: int| 0 <= j < words.drop_last().len() implies words.contains(
                #[trigger] words.drop_last()[j],
            ) by {
                assert(words[j] == words.drop_last()[j]);
            }
        }
    } else if pattern_compiles(pattern_text(c.positions)) {
        let kept = admitted(words, c);
        lemma_admitted_length(words, c);
        if kept.len() > 0 {
            lemma_admitted_members(words, c, kept.len() - 1);
            assert forall|j: int| 0 <= j < kept.drop_last().len() implies words.contains(
                #[trigger] kept.drop_last()[j],
            ) && admits(c, kept.drop_last()[j]) by {
                lemma_admitted_members(words, c, j);
            }
            let t = choose|t: int| 0 <= t < words.len() && words[t] == kept.last();
            assert(admits(c, words[t]));
        } else {
            assert forall|i: int| 0 <= i < words.len() implies !admits(c, #[trigger] words[i]) by {
                if admits(c, words[i]) {
                    lemma_admitted_complete(words, c, i);
                }
            }
        }
    }
}

/// Adding a letter keeps what was there, adds that letter and nothing
/// else, and repeats none.
pub proof fn lemma_with_letter(letters: Seq<char>, c: char, x: char)
    ensures
        with_letter(letters, c).contains(x) <==> letters.contains(x) || x == c,
        letters.no_duplicates() ==> with_letter(letters, c).no_duplicates(),
{
    let out = with_letter(letters, c);
    if !letters.contains(c) {
        assert(out[letters.len() as int] == c);
        if letters.contains(x) {
            let t = choose|t: int| 0 <= t < letters.len() && letters[t] == x;
            assert(out[t] == x);
        }
        if out.contains(x) {
            let t = choose|t: int| 0 <= t < out.len() && out[t] == x;
            if t < letters.len() {
                assert(letters[t] == x);
            }
        }
    }
}

/// The letters excluded at a position are those that some guess marks as
/// absent there, each held once.
pub proof fn excluded_are_the_absent_letters(h: Seq<GuessModel>, i: int, c: char)
    ensures
        excluded_letters(h, i).contains(c) <==> exists|k: int|
            0 <= k < h.len() && marked(#[trigger] h[k], i, Indicator::ABSENT) && h[k].word[i] == c,
        excluded_letters(h, i).no_duplicates(),
    decreases h.len(),
{
    if h.len() > 0 {
        let earlier = h.drop_last();
        let prev = excluded_letters(earlier, i);
        excluded_are_the_absent_letters(earlier, i, c);
        let last = h.len() - 1;
        assert(h.last() == h[last]);
        if marked(h.last(), i, Indicator::ABSENT) {
            lemma_with_letter(prev, h.last().word[i], c);
        }
        if exists|k: int|
            0 <= k < earlier.len() && marked(#[trigger] earlier[k], i, Indicator::ABSENT)
                && earlier[k].word[i] == c {
            let k = choose|k: int|
                0 <= k < earlier.len() && marked(#[trigger] earlier[k], i, Indicator::ABSENT)
                    && earlier[k].word[i] == c;
            assert(h[k] == earlier[k]);
        }
        if exists|k: int|
            0 <= k < h.len() && marked(#[trigger] h[k], i, Indicator::ABSENT) && h[k].word[i] == c {
            let k = choose|k: int|
                0 <= k < h.len() && marked(#[trigger] h[k], i, Indicator::ABSENT) && h[k].word[i] == c;
            if k < last {
                assert(earlier[k] == h[k]);
            }
        }
    }
}

/// The letters gathered from a guess are those gathered before and those
/// that the guess marks as misplaced among its first `n` positions.
pub proof fn lemma_misplaced_letters(g: GuessModel, n: int, acc: Seq<char>, c: char)
    ensures
        misplaced_letters(g, n, acc).contains(c) <==> acc.contains(c) || exists|j: int|
            0 <= j < n && #[trigger] marked(g, j, Indicator::INCORRECT) && g.word[j] == c,
        acc.no_duplicates() ==> misplaced_letters(g, n, acc).no_duplicates(),
    decreases n,
{
    if n > 0 {
        let prev = misplaced_letters(g, n - 1, acc);
        lemma_misplaced_letters(g, n - 1, acc, c);
        if marked(g, n - 1, Indicator::INCORRECT) {
            lemma_with_letter(prev, g.word[n - 1], c);
        }
        if exists|j: int| 0 <= j < n - 1 && #[trigger] marked(g, j, Indicator::INCORRECT) && g.word[j] == c {
            let j = choose|j: int|
                0 <= j < n - 1 && #[trigger] marked(g, j, Indicator::INCORRECT) && g.word[j] == c;
            assert(0 <= j < n && marked(g, j, Indicator::INCORRECT) && g.word[j] == c);
        }
    }
}

/// The required letters are those that some guess marks as misplaced at
/// some position, each held once.
pub proof fn required_are_the_misplaced_letters(h: Seq<GuessModel>, c: char)
    ensures
        required_letters(h).contains(c) <==> exists|k: int, j: int|
            0 <= k < h.len() && #[trigger] marked(h[k], j, Indicator::INCORRECT) && h[k].word[j] == c,
        required_letters(h).no_duplicates(),
    decreases h.len(),
{
    if h.len() > 0 {
        let earlier = h.drop_last();
        let last = h.len() - 1;
        let g = h.last();
        assert(g == h[last]);
        required_are_the_misplaced_letters(earlier, c);
        lemma_misplaced_letters(g, span(g) as int, required_letters(earlier), c);
        if exists|k: int, j: int|
            0 <= k < earlier.len() && #[trigger] marked(earlier[k], j, Indicator::INCORRECT)
                && earlier[k].word[j] == c {
            let (k, j) = choose|k: int, j: int|
                0 <= k < earlier.len() && #[trigger] marked(earlier[k], j, Indicator::INCORRECT)
                    && earlier[k].word[j] == c;
            assert(h[k] == earlier[k]);
            assert(marked(h[k], j, Indicator::INCORRECT) && h[k].word[j] == c);
        }
        if exists|j: int| 0 <= j < span(g) && #[trigger] marked(g, j, Indicator::INCORRECT) && g.word[j] == c {
            let j = choose|j: int|
                0 <= j < span(g) && #[trigger] marked(g, j, Indicator::INCORRECT) && g.word[j] == c;
            assert(marked(h[last], j, Indicator::INCORRECT) && h[last].word[j] == c);
        }
        if exists|k: int, j: int|
            0 <= k < h.len() && #[trigger] marked(h[k], j, Indicator::INCORRECT) && h[k].word[j] == c {
            let (k, j) = choose|k: int, j: int|
                0 <= k < h.len() && #[trigger] marked(h[k], j, Indicator::INCORRECT) && h[k].word[j] == c;
            if k < last {
                assert(earlier[k] == h[k]);
                assert(marked(earlier[k], j, Indicator::INCORRECT) && earlier[k].word[j] == c);
            } else {
                assert(0 <= j < span(g) && marked(g, j, Indicator::INCORRECT) && g.word[j] == c);
            }
        }
    }
}

/// The derived constraints have a rule for each position of the history and
/// for no other; a position that no guess marks as correct excludes exactly
/// the letters marked absent there.
pub proof fn unfixed_position_excludes_absent_letters(h: Seq<GuessModel>, i: int, c: char)
    requires
        0 <= i < derived(h).positions.len(),
        forall|k: int| 0 <= k < h.len() ==> !marked(#[trigger] h[k], i, Indicator::CORRECT),
    ensures
        derived(h).positions[i] is Excluded,
        derived(h).positions[i]->Excluded_0.contains(c) <==> exists|k: int|
            0 <= k < h.len() && marked(#[trigger] h[k], i, Indicator::ABSENT) && h[k].word[i] == c,
{
    lemma_no_correct_mark_no_fixed_letter(h, i);
    excluded_are_the_absent_letters(h, i, c);
}

} // verus!
