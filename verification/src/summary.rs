//! Extractive summary helpers of the Archivist: words, sentences, open
//! questions, decisions, and activity statistics. Deterministic, no scoring.

use vstd::prelude::*;
use crate::models::MessageDisplay;
use crate::text::{
    chars_of, is_ws, lines, lowercase_text, seq_contains, split_at_non_alnum, split_lines,
    split_non_alnum, string_from_chars, string_from_range, contains_seq, to_lowercase, trim,
    trim_bounds, utf8_len, utf8_len_capped,
};

verus! {

// ---------------------------------------------------------------------------
// Words

/// The words of a text: lower-cased, split at every non-alphanumeric
/// character, keeping only words longer than two bytes.
pub open spec fn spec_tokens(s: Seq<char>) -> Seq<Seq<char>> {
    split_non_alnum(lowercase_text(s)).filter(|w: Seq<char>| utf8_len(w) > 2)
}

/// Tokenize text into lowercase terms
pub fn tokenize(text: &str) -> (r: Vec<String>)
    ensures
        r@.map_values(|t: String| t@) == spec_tokens(text@),
{
    let lower = to_lowercase(text);
    let lv = chars_of(lower.as_str());
    let pieces = split_at_non_alnum(&lv);
    let ghost ps = pieces@.map_values(|w: Vec<char>| w@);
    let ghost long = |w: Seq<char>| utf8_len(w) > 2;
    let mut out: Vec<String> = Vec::new();
    let mut i: usize = 0;
    while i < pieces.len()
        invariant
            i <= pieces.len(),
            ps == pieces@.map_values(|w: Vec<char>| w@),
            long == (|w: Seq<char>| utf8_len(w) > 2),
            out@.map_values(|t: String| t@) == ps.subrange(0, i as int).filter(long),
        decreases pieces.len() - i,
    {
        let w = &pieces[i];
        assert(ps[i as int] == w@);
        proof {
            reveal_with_fuel(Seq::<_>::filter, 1);
            assert(ps.subrange(0, i + 1).drop_last() =~= ps.subrange(0, i as int));
        }
        let ghost before = out@.map_values(|t: String| t@);
        if utf8_len_capped(w, 3) > 2 {
            let t = string_from_chars(w);
            out.push(t);
            assert(out@.map_values(|t: String| t@) =~= before.push(w@));
        } else {
            assert(out@.map_values(|t: String| t@) =~= before);
        }
        i = i + 1;
    }
    assert(ps.subrange(0, ps.len() as int) =~= ps);
    out
}

// ---------------------------------------------------------------------------
// Sentences

/// Characters that end a sentence.
pub open spec fn is_terminator(c: char) -> bool {
    c == '.' || c == '!' || c == '?'
}

/// A trimmed piece is kept when it is non-empty and longer than `n` bytes.
pub open spec fn long_enough(t: Seq<char>, n: nat) -> bool {
    t.len() > 0 && utf8_len(t) > n
}

/// Reading a text character by character: the sentences completed so far
/// (each closed by a terminator, trimmed, kept when longer than 10 bytes)
/// and the text after the last terminator.
pub open spec fn sentence_scan(s: Seq<char>) -> (Seq<Seq<char>>, Seq<char>)
    decreases s.len(),
{
    if s.len() == 0 {
        (Seq::empty(), Seq::empty())
    } else {
        let (done, cur) = sentence_scan(s.drop_last());
        let cur2 = cur.push(s.last());
        if is_terminator(s.last()) {
            (if long_enough(trim(cur2), 10) {
                done.push(trim(cur2))
            } else {
                done
            }, Seq::empty())
        } else {
            (done, cur2)
        }
    }
}

/// The sentences of a text: the terminated ones kept by `sentence_scan`, and
/// the unterminated rest when it is longer than 20 bytes.
pub open spec fn spec_sentences(s: Seq<char>) -> Seq<Seq<char>> {
    let (done, cur) = sentence_scan(s);
    if long_enough(trim(cur), 20) {
        done.push(trim(cur))
    } else {
        done
    }
}

/// The trimmed text of `cur`, when longer than `n` bytes.
fn trimmed_if_long(cur: &[char], n: usize) -> (r: Option<String>)
    requires
        n < usize::MAX,
    ensures
        match r {
            Some(t) => long_enough(trim(cur@), n as nat) && t@ == trim(cur@),
            None => !long_enough(trim(cur@), n as nat),
        },
{
    let (a, b) = trim_bounds(cur);
    if a < b {
        let t = string_from_range(cur, a, b);
        let tv = chars_of(t.as_str());
        if utf8_len_capped(&tv, n + 1) > n {
            return Some(t);
        }
    }
    None
}

/// Split text into sentences
pub fn split_sentences(text: &str) -> (r: Vec<String>)
    ensures
        r@.map_values(|t: String| t@) == spec_sentences(text@),
{
    let v = chars_of(text);
    let mut sentences: Vec<String> = Vec::new();
    let mut current: Vec<char> = Vec::new();
    let mut i: usize = 0;
    assert(v@.subrange(0, 0) =~= Seq::<char>::empty());
    while i < v.len()
        invariant
            i <= v.len(),
            sentence_scan(v@.subrange(0, i as int)).0 == sentences@.map_values(|t: String| t@),
            sentence_scan(v@.subrange(0, i as int)).1 == current@,
        decreases v.len() - i,
    {
        let c = v[i];
        assert(v@.subrange(0, i + 1).drop_last() =~= v@.subrange(0, i as int));
        let ghost before = sentences@.map_values(|t: String| t@);
        current.push(c);
        if c == '.' || c == '!' || c == '?' {
            match trimmed_if_long(&current, 10) {
                Some(t) => {
                    sentences.push(t);
                    assert(sentences@.map_values(|t: String| t@) =~= before.push(trim(current@)));
                },
                None => {
                    assert(sentences@.map_values(|t: String| t@) =~= before);
                },
            }
            current = Vec::new();
        }
        i = i + 1;
    }
    assert(v@.subrange(0, v@.len() as int) =~= v@);
    let ghost before = sentences@.map_values(|t: String| t@);
    match trimmed_if_long(&current, 20) {
        Some(t) => {
            sentences.push(t);
            assert(sentences@.map_values(|t: String| t@) =~= before.push(trim(current@)));
        },
        None => {},
    }
    sentences
}

// ---------------------------------------------------------------------------
// Questions

/// A trimmed line reads as a question: it ends with `?` and is longer than 10 bytes.
pub open spec fn is_question(t: Seq<char>) -> bool {
    t.len() > 0 && t.last() == '?' && utf8_len(t) > 10
}

/// The question lines of a text, trimmed, in order.
pub open spec fn question_lines(content: Seq<char>) -> Seq<Seq<char>> {
    lines(content).map_values(|l: Seq<char>| trim(l)).filter(|t: Seq<char>| is_question(t))
}

/// All (speaker, question) pairs of a message list, in order.
pub open spec fn all_questions(msgs: Seq<MessageDisplay>) -> Seq<(Seq<char>, Seq<char>)>
    decreases msgs.len(),
{
    if msgs.len() == 0 {
        Seq::empty()
    } else {
        let m = msgs.last();
        all_questions(msgs.drop_last()) + question_lines(m.content@).map_values(
            |q: Seq<char>| (m.sender_username@, q),
        )
    }
}

/// How many items the extractors return at most: `max`, but at least one item
/// is always taken (they stop only after adding an item).
pub open spec fn item_cap(max: usize) -> nat {
    if max == 0 {
        1
    } else {
        max as nat
    }
}

/// The first `n` items of `s` (all of them when there are fewer).
pub open spec fn take_at_most<A>(s: Seq<A>, n: nat) -> Seq<A> {
    if s.len() <= n {
        s
    } else {
        s.take(n as int)
    }
}

/// The question lines of one text, trimmed.
fn questions_of(content: &str) -> (r: Vec<String>)
    ensures
        r@.map_values(|t: String| t@) == question_lines(content@),
{
    let cv = chars_of(content);
    let ls = split_lines(&cv);
    let ghost lv = ls@.map_values(|w: Vec<char>| w@);
    let ghost trimmed = lv.map_values(|l: Seq<char>| trim(l));
    let ghost q = |t: Seq<char>| is_question(t);
    let mut out: Vec<String> = Vec::new();
    let mut i: usize = 0;
    while i < ls.len()
        invariant
            i <= ls.len(),
            lv == ls@.map_values(|w: Vec<char>| w@),
            lv == lines(content@),
            trimmed == lv.map_values(|l: Seq<char>| trim(l)),
            q == (|t: Seq<char>| is_question(t)),
            out@.map_values(|t: String| t@) == trimmed.subrange(0, i as int).filter(q),
        decreases ls.len() - i,
    {
        let line = &ls[i];
        assert(lv[i as int] == line@);
        let (a, b) = trim_bounds(line);
        let ghost before = out@.map_values(|t: String| t@);
        proof {
            reveal_with_fuel(Seq::<_>::filter, 1);
            assert(trimmed.subrange(0, i + 1).drop_last() =~= trimmed.subrange(0, i as int));
            assert(trimmed[i as int] == trim(line@));
        }
        if a < b && line[b - 1] == '?' {
            let t = string_from_range(line, a, b);
            let tv = chars_of(t.as_str());
            if utf8_len_capped(&tv, 11) > 10 {
                out.push(t);
                assert(out@.map_values(|t: String| t@) =~= before.push(trim(line@)));
            } else {
                assert(out@.map_values(|t: String| t@) =~= before);
            }
        } else {
            assert(out@.map_values(|t: String| t@) =~= before);
        }
        i = i + 1;
    }
    assert(trimmed.subrange(0, trimmed.len() as int) =~= trimmed);
    out
}

proof fn lemma_questions_prefix(msgs: Seq<MessageDisplay>, i: int)
    requires
        0 <= i <= msgs.len(),
    ensures
        all_questions(msgs.subrange(0, i)).len() <= all_questions(msgs).len(),
        all_questions(msgs) .subrange(0, all_questions(msgs.subrange(0, i)).len() as int)
            == all_questions(msgs.subrange(0, i)),
    decreases msgs.len() - i,
{
    if i < msgs.len() {
        lemma_questions_prefix(msgs, i + 1);
        let a = all_questions(msgs.subrange(0, i));
        let b = all_questions(msgs.subrange(0, i + 1));
        assert(msgs.subrange(0, i + 1).drop_last() =~= msgs.subrange(0, i));
        assert(b.subrange(0, a.len() as int) =~= a);
        assert(all_questions(msgs).subrange(0, a.len() as int) =~= b.subrange(0, a.len() as int));
    } else {
        assert(msgs.subrange(0, i) =~= msgs);
        assert(all_questions(msgs).subrange(0, all_questions(msgs).len() as int) =~= all_questions(msgs));
    }
}

/// Extract questions (lines ending with ?)
pub fn extract_questions(messages: &[MessageDisplay], max_questions: usize) -> (r: Vec<(String, String)>)
    ensures
        r@.map_values(|p: (String, String)| (p.0@, p.1@)) == take_at_most(
            all_questions(messages@),
            item_cap(max_questions),
        ),
{
    let ghost all = all_questions(messages@);
    let ghost cap = item_cap(max_questions);
    let mut questions: Vec<(String, String)> = Vec::new();
    let mut i: usize = 0;
    assert(messages@.subrange(0, 0) =~= Seq::<MessageDisplay>::empty());
    while i < messages.len()
        invariant
            i <= messages.len(),
            all == all_questions(messages@),
            cap == item_cap(max_questions),
            questions@.map_values(|p: (String, String)| (p.0@, p.1@)) == all_questions(
                messages@.subrange(0, i as int),
            ),
            questions@.len() < cap,
        decreases messages.len() - i,
    {
        let msg = &messages[i];
        let qs = questions_of(msg.content.as_str());
        let ghost prev = all_questions(messages@.subrange(0, i as int));
        let ghost mine = question_lines(msg.content@).map_values(
            |q: Seq<char>| (msg.sender_username@, q),
        );
        proof {
            assert(messages@.subrange(0, i + 1).drop_last() =~= messages@.subrange(0, i as int));
            assert(all_questions(messages@.subrange(0, i + 1)) == prev + mine);
            lemma_questions_prefix(messages@, i + 1);
        }
        let mut j: usize = 0;
        while j < qs.len()
            invariant
                j <= qs.len(),
                i < messages.len(),
                all == all_questions(messages@),
                cap == item_cap(max_questions),
                qs@.map_values(|t: String| t@) == question_lines(msg.content@),
                mine == question_lines(msg.content@).map_values(
                    |q: Seq<char>| (msg.sender_username@, q),
                ),
                prev == all_questions(messages@.subrange(0, i as int)),
                all_questions(messages@.subrange(0, i + 1)) == prev + mine,
                all.subrange(0, (prev + mine).len() as int) == prev + mine,
                (prev + mine).len() <= all.len(),
                questions@.map_values(|p: (String, String)| (p.0@, p.1@)) == prev + mine.subrange(
                    0,
                    j as int,
                ),
                questions@.len() < cap,
            decreases qs.len() - j,
        {
            let ghost before = questions@.map_values(|p: (String, String)| (p.0@, p.1@));
            assert(qs@[j as int]@ == question_lines(msg.content@)[j as int]);
            let pair = (msg.sender_username.clone(), qs[j].clone());
            assert((pair.0@, pair.1@) == mine[j as int]);
            questions.push(pair);
            assert(questions@.map_values(|p: (String, String)| (p.0@, p.1@)) =~= before.push(mine[j as int]));
            assert(mine.subrange(0, j + 1) =~= mine.subrange(0, j as int).push(mine[j as int]));
            assert(questions@.map_values(|p: (String, String)| (p.0@, p.1@)) =~= prev
                + mine.subrange(0, j + 1));
            if questions.len() >= max_questions {
                proof {
                    let got = prev + mine.subrange(0, j + 1);
                    assert(got =~= all.subrange(0, got.len() as int));
                    assert(got.len() == cap);
                    assert(all.take(cap as int) =~= got);
                }
                return questions;
            }
            j = j + 1;
        }
        assert(mine.subrange(0, qs@.len() as int) =~= mine);
        i = i + 1;
    }
    assert(messages@.subrange(0, messages@.len() as int) =~= messages@);
    questions
}

} // verus!

verus! {

// ---------------------------------------------------------------------------
// Decisions

/// Words that mark a decision or an action item, in the order they are tried.
pub open spec fn decision_keywords() -> Seq<Seq<char>> {
    seq![
        "decide"@, "decided"@, "decision"@, "let's"@, "lets"@, "todo"@, "to-do"@, "to do"@,
        "ship"@, "shipped"@, "fix"@, "fixed"@, "fixing"@, "next"@, "next step"@, "will"@,
        "going to"@, "gonna"@, "should"@, "must"@, "need to"@,
    ]
}

fn decision_keyword_list() -> (v: Vec<&'static str>)
    ensures
        v@.map_values(|s: &str| s@) == decision_keywords(),
{
    let v = vec![
        "decide", "decided", "decision", "let's", "lets", "todo", "to-do", "to do", "ship",
        "shipped", "fix", "fixed", "fixing", "next", "next step", "will", "going to", "gonna",
        "should", "must", "need to",
    ];
    assert(v@.map_values(|s: &str| s@) =~= decision_keywords());
    v
}

/// The first keyword of `kws` that occurs in `text`.
pub open spec fn first_keyword_in(text: Seq<char>, kws: Seq<Seq<char>>) -> Option<Seq<char>>
    decreases kws.len(),
{
    if kws.len() == 0 {
        None
    } else if contains_seq(text, kws[0]) {
        Some(kws[0])
    } else {
        first_keyword_in(text, kws.drop_first())
    }
}

/// The first line that mentions `kw` (ignoring case) and is longer than 15
/// bytes once trimmed; the trimmed line.
pub open spec fn first_line_with(ls: Seq<Seq<char>>, kw: Seq<char>) -> Option<Seq<char>>
    decreases ls.len(),
{
    if ls.len() == 0 {
        None
    } else if contains_seq(lowercase_text(ls[0]), kw) && utf8_len(trim(ls[0])) > 15 {
        Some(trim(ls[0]))
    } else {
        first_line_with(ls.drop_first(), kw)
    }
}

/// The decision a message holds: for the first keyword found anywhere in the
/// lower-cased message, the first line that carries it.
pub open spec fn message_decision(content: Seq<char>) -> Option<Seq<char>> {
    match first_keyword_in(lowercase_text(content), decision_keywords()) {
        None => None,
        Some(kw) => first_line_with(lines(content), kw),
    }
}

/// All (speaker, decision) pairs of a message list, at most one per message.
pub open spec fn all_decisions(msgs: Seq<MessageDisplay>) -> Seq<(Seq<char>, Seq<char>)>
    decreases msgs.len(),
{
    if msgs.len() == 0 {
        Seq::empty()
    } else {
        let m = msgs.last();
        all_decisions(msgs.drop_last()) + match message_decision(m.content@) {
            Some(d) => seq![(m.sender_username@, d)],
            None => Seq::empty(),
        }
    }
}

/// The decision line of one message, if any.
fn decision_of(content: &str) -> (r: Option<String>)
    ensures
        match r {
            Some(t) => message_decision(content@) == Some(t@),
            None => message_decision(content@) is None,
        },
{
    let lower = to_lowercase(content);
    let lv = chars_of(lower.as_str());
    let kws = decision_keyword_list();
    let ghost kv = kws@.map_values(|s: &str| s@);
    let mut k: usize = 0;
    let mut hit = false;
    assert(kv.subrange(0, kv.len() as int) =~= kv);
    while k < kws.len() && !hit
        invariant
            k <= kws.len(),
            kv == kws@.map_values(|s: &str| s@),
            kv == decision_keywords(),
            lv@ == lowercase_text(content@),
            !hit ==> first_keyword_in(lv@, kv) == first_keyword_in(lv@, kv.subrange(k as int, kv.len() as int)),
            hit ==> k < kws.len() && first_keyword_in(lv@, kv) == Some(kv[k as int]),
        decreases kws.len() - k, if hit { 0int } else { 1int },
    {
        let kc = chars_of(kws[k]);
        let ghost rest = kv.subrange(k as int, kv.len() as int);
        assert(rest[0] == kc@);
        assert(rest.drop_first() =~= kv.subrange(k + 1, kv.len() as int));
        if seq_contains(&lv, &kc) {
            hit = true;
        } else {
            k = k + 1;
        }
    }
    if !hit {
        assert(kv.subrange(kv.len() as int, kv.len() as int) =~= Seq::<Seq<char>>::empty());
        return None;
    }
    let kidx = k;
    let kc = chars_of(kws[kidx]);
    assert(first_keyword_in(lv@, kv) == Some(kc@));
    let cv = chars_of(content);
    let ls = split_lines(&cv);
    let ghost lsv = ls@.map_values(|w: Vec<char>| w@);
    let mut j: usize = 0;
    assert(lsv.subrange(0, lsv.len() as int) =~= lsv);
    while j < ls.len()
        invariant
            j <= ls.len(),
            lsv == ls@.map_values(|w: Vec<char>| w@),
            lsv == lines(content@),
            first_keyword_in(lowercase_text(content@), decision_keywords()) == Some(kc@),
            first_line_with(lsv, kc@) == first_line_with(lsv.subrange(j as int, lsv.len() as int), kc@),
        decreases ls.len() - j,
    {
        let line = &ls[j];
        let ghost rest = lsv.subrange(j as int, lsv.len() as int);
        assert(rest[0] == line@);
        assert(rest.drop_first() =~= lsv.subrange(j + 1, lsv.len() as int));
        let ls_str = string_from_chars(line);
        let line_lower = to_lowercase(ls_str.as_str());
        let llv = chars_of(line_lower.as_str());
        if seq_contains(&llv, &kc) {
            let (a, b) = trim_bounds(line);
            let t = string_from_range(line, a, b);
            let tv = chars_of(t.as_str());
            if utf8_len_capped(&tv, 16) > 15 {
                assert(contains_seq(lowercase_text(rest[0]), kc@));
                assert(utf8_len(trim(rest[0])) > 15);
                assert(first_line_with(rest, kc@) == Some(trim(line@)));
                assert(message_decision(content@) == first_line_with(lsv, kc@));
                return Some(t);
            }
        }
        j = j + 1;
    }
    assert(lsv.subrange(lsv.len() as int, lsv.len() as int) =~= Seq::<Seq<char>>::empty());
    None
}

/// A text without line breaks splits on `'\n'` into itself alone.
proof fn lemma_split_single_line(c: Seq<char>)
    requires
        forall|i: int| 0 <= i < c.len() ==> c[i] != '\n',
    ensures
        crate::bot::split_on(c, '\n') == seq![c],
    decreases c.len(),
{
    if c.len() > 0 {
        assert forall|i: int| 0 <= i < c.drop_last().len() implies c.drop_last()[i] != '\n' by {
            assert(c.drop_last()[i] == c[i]);
        }
        lemma_split_single_line(c.drop_last());
        assert(c[c.len() - 1] != '\n');
        assert(c.drop_last().push(c.last()) =~= c);
        let p = crate::bot::split_on(c.drop_last(), '\n');
        assert(p.update(p.len() - 1, p.last().push(c.last())) =~= seq![c]);
    } else {
        assert(c =~= Seq::<char>::empty());
    }
}

/// If one of the keywords occurs in the text, the first keyword found is
/// one that occurs in it.
proof fn lemma_first_keyword_found(text: Seq<char>, kws: Seq<Seq<char>>, k: int)
    requires
        0 <= k < kws.len(),
        contains_seq(text, kws[k]),
    ensures
        first_keyword_in(text, kws) matches Some(kw) && contains_seq(text, kw),
    decreases kws.len(),
{
    if k > 0 && !contains_seq(text, kws[0]) {
        assert(kws.drop_first()[k - 1] == kws[k]);
        lemma_first_keyword_found(text, kws.drop_first(), k - 1);
    }
}

/// A one-line message that is longer than 15 bytes once trimmed and that
/// mentions (in any case) a word marking a decision or an action item
/// (decide, decided, decision, let's, lets, todo, to-do, to do, ship, shipped,
/// fix, fixed, fixing, next, next step, will, going to, gonna, should, must,
/// need to) is reported as a decision: its trimmed text.
pub proof fn lemma_one_line_decision(c: Seq<char>)
    requires
        forall|i: int| 0 <= i < c.len() ==> c[i] != '\n',
        utf8_len(trim(c)) > 15,
        ({
            let l = lowercase_text(c);
            ||| contains_seq(l, "decide"@)
            ||| contains_seq(l, "decided"@)
            ||| contains_seq(l, "decision"@)
            ||| contains_seq(l, "let's"@)
            ||| contains_seq(l, "lets"@)
            ||| contains_seq(l, "todo"@)
            ||| contains_seq(l, "to-do"@)
            ||| contains_seq(l, "to do"@)
            ||| contains_seq(l, "ship"@)
            ||| contains_seq(l, "shipped"@)
            ||| contains_seq(l, "fix"@)
            ||| contains_seq(l, "fixed"@)
            ||| contains_seq(l, "fixing"@)
            ||| contains_seq(l, "next"@)
            ||| contains_seq(l, "next step"@)
            ||| contains_seq(l, "will"@)
            ||| contains_seq(l, "going to"@)
            ||| contains_seq(l, "gonna"@)
            ||| contains_seq(l, "should"@)
            ||| contains_seq(l, "must"@)
            ||| contains_seq(l, "need to"@)
        }),
    ensures
        message_decision(c) == Some(trim(c)),
{
    let l = lowercase_text(c);
    let kws = decision_keywords();
    let k: int = if contains_seq(l, "decide"@) {
        0
    } else if contains_seq(l, "decided"@) {
        1
    } else if contains_seq(l, "decision"@) {
        2
    } else if contains_seq(l, "let's"@) {
        3
    } else if contains_seq(l, "lets"@) {
        4
    } else if contains_seq(l, "todo"@) {
        5
    } else if contains_seq(l, "to-do"@) {
        6
    } else if contains_seq(l, "to do"@) {
        7
    } else if contains_seq(l, "ship"@) {
        8
    } else if contains_seq(l, "shipped"@) {
        9
    } else if contains_seq(l, "fix"@) {
        10
    } else if contains_seq(l, "fixed"@) {
        11
    } else if contains_seq(l, "fixing"@) {
        12
    } else if contains_seq(l, "next"@) {
        13
    } else if contains_seq(l, "next step"@) {
        14
    } else if contains_seq(l, "will"@) {
        15
    } else if contains_seq(l, "going to"@) {
        16
    } else if contains_seq(l, "gonna"@) {
        17
    } else if contains_seq(l, "should"@) {
        18
    } else if contains_seq(l, "must"@) {
        19
    } else {
        20
    };
    assert(contains_seq(l, kws[k]));
    lemma_first_keyword_found(l, kws, k);
    let kw = first_keyword_in(l, kws)->0;
    if c.len() == 0 {
        assert(crate::text::trim_start(c) == c);
        assert(trim(c) == c);
        assert(utf8_len(c) == 0);
    }
    lemma_split_single_line(c);
    let ls = lines(c);
    assert(ls =~= seq![c]);
    assert(first_line_with(ls.drop_first(), kw) is None);
}

proof fn lemma_decisions_prefix(msgs: Seq<MessageDisplay>, i: int)
    requires
        0 <= i <= msgs.len(),
    ensures
        all_decisions(msgs.subrange(0, i)).len() <= all_decisions(msgs).len(),
        all_decisions(msgs).subrange(0, all_decisions(msgs.subrange(0, i)).len() as int)
            == all_decisions(msgs.subrange(0, i)),
    decreases msgs.len() - i,
{
    if i < msgs.len() {
        lemma_decisions_prefix(msgs, i + 1);
        let a = all_decisions(msgs.subrange(0, i));
        let b = all_decisions(msgs.subrange(0, i + 1));
        assert(msgs.subrange(0, i + 1).drop_last() =~= msgs.subrange(0, i));
        assert(b.subrange(0, a.len() as int) =~= a);
        assert(all_decisions(msgs).subrange(0, a.len() as int) =~= b.subrange(0, a.len() as int));
    } else {
        assert(msgs.subrange(0, i) =~= msgs);
        assert(all_decisions(msgs).subrange(0, all_decisions(msgs).len() as int) =~= all_decisions(msgs));
    }
}

/// Extract decisions and to-do items using keyword heuristics
pub fn extract_decisions(messages: &[MessageDisplay], max_items: usize) -> (r: Vec<(String, String)>)
    ensures
        r@.map_values(|p: (String, String)| (p.0@, p.1@)) == take_at_most(
            all_decisions(messages@),
            item_cap(max_items),
        ),
{
    let ghost all = all_decisions(messages@);
    let ghost cap = item_cap(max_items);
    let mut items: Vec<(String, String)> = Vec::new();
    let mut i: usize = 0;
    assert(messages@.subrange(0, 0) =~= Seq::<MessageDisplay>::empty());
    while i < messages.len()
        invariant
            i <= messages.len(),
            all == all_decisions(messages@),
            cap == item_cap(max_items),
            items@.map_values(|p: (String, String)| (p.0@, p.1@)) == all_decisions(
                messages@.subrange(0, i as int),
            ),
            items@.len() < cap,
        decreases messages.len() - i,
    {
        let msg = &messages[i];
        let ghost prev = all_decisions(messages@.subrange(0, i as int));
        proof {
            assert(messages@.subrange(0, i + 1).drop_last() =~= messages@.subrange(0, i as int));
            lemma_decisions_prefix(messages@, i + 1);
        }
        let ghost before = items@.map_values(|p: (String, String)| (p.0@, p.1@));
        match decision_of(msg.content.as_str()) {
            Some(d) => {
                let pair = (msg.sender_username.clone(), d);
                items.push(pair);
                let ghost got = prev + seq![(msg.sender_username@, pair.1@)];
                assert(items@.map_values(|p: (String, String)| (p.0@, p.1@)) =~= got);
                assert(all_decisions(messages@.subrange(0, i + 1)) == got);
                if items.len() >= max_items {
                    proof {
                        assert(got =~= all.subrange(0, got.len() as int));
                        assert(got.len() == cap);
                        assert(all.take(cap as int) =~= got);
                    }
                    return items;
                }
            },
            None => {
                assert(all_decisions(messages@.subrange(0, i + 1)) =~= prev);
            },
        }
        i = i + 1;
    }
    assert(messages@.subrange(0, messages@.len() as int) =~= messages@);
    items
}

// ---------------------------------------------------------------------------
// Activity statistics

/// How many of the messages `user` sent.
pub open spec fn message_count(msgs: Seq<MessageDisplay>, user: Seq<char>) -> nat
    decreases msgs.len(),
{
    if msgs.len() == 0 {
        0
    } else {
        message_count(msgs.drop_last(), user) + if msgs.last().sender_username@ == user {
            1nat
        } else {
            0nat
        }
    }
}

/// `top` lists up to three of the most active senders of `msgs`, each with its
/// message count, most active first; any sender left out sent no more
/// messages than the last one listed.
pub open spec fn is_top_contributors(msgs: Seq<MessageDisplay>, top: Seq<(Seq<char>, nat)>) -> bool {
    &&& top.len() <= 3
    &&& forall|k: int| 0 <= k < top.len() ==> #[trigger] top[k].1 == message_count(msgs, top[k].0)
        && top[k].1 >= 1
    &&& forall|a: int, b: int| 0 <= a < b < top.len() ==> #[trigger] top[a].0 != #[trigger] top[b].0
        && top[a].1 >= top[b].1
    &&& forall|i: int|
        0 <= i < msgs.len() ==> (exists|k: int|
            0 <= k < top.len() && #[trigger] top[k].0 == (#[trigger] msgs[i]).sender_username@) || (
        top.len() == 3 && message_count(msgs, msgs[i].sender_username@) <= top[2].1)
}

/// The sender table is exact for `msgs`: distinct senders, each with its
/// message count, covering every sender.
pub open spec fn sender_table_ok(users: Seq<(Seq<char>, nat)>, msgs: Seq<MessageDisplay>) -> bool {
    &&& forall|k: int| 0 <= k < users.len() ==> #[trigger] users[k].1 == message_count(msgs, users[k].0)
        && users[k].1 >= 1
    &&& forall|a: int, b: int| 0 <= a < b < users.len() ==> #[trigger] users[a].0 != #[trigger] users[b].0
    &&& forall|u: Seq<char>| message_count(msgs, u) > 0 ==> exists|k: int|
        0 <= k < users.len() && #[trigger] users[k].0 == u
}

proof fn lemma_count_le_len(msgs: Seq<MessageDisplay>, u: Seq<char>)
    ensures
        message_count(msgs, u) <= msgs.len(),
    decreases msgs.len(),
{
    if msgs.len() > 0 {
        lemma_count_le_len(msgs.drop_last(), u);
    }
}

/// The senders of the messages with their counts, in order of first appearance.
fn sender_table(messages: &[MessageDisplay]) -> (users: Vec<(String, usize)>)
    ensures
        sender_table_ok(users@.map_values(|p: (String, usize)| (p.0@, p.1 as nat)), messages@),
{
    let mut users: Vec<(String, usize)> = Vec::new();
    let mut i: usize = 0;
    assert(messages@.subrange(0, 0) =~= Seq::<MessageDisplay>::empty());
    while i < messages.len()
        invariant
            i <= messages.len(),
            sender_table_ok(
                users@.map_values(|p: (String, usize)| (p.0@, p.1 as nat)),
                messages@.subrange(0, i as int),
            ),
        decreases messages.len() - i,
    {
        let ghost uv = users@.map_values(|p: (String, usize)| (p.0@, p.1 as nat));
        let ghost pre = messages@.subrange(0, i as int);
        let ghost post = messages@.subrange(0, i + 1);
        let name = &messages[i].sender_username;
        assert(post.drop_last() =~= pre);
        let mut j: usize = 0;
        while j < users.len() && users[j].0 != *name
            invariant
                j <= users@.len(),
                forall|k: int| 0 <= k < j ==> (#[trigger] users@[k]).0@ != name@,
            decreases users.len() - j,
        {
            j = j + 1;
        }
        if j < users.len() {
            let c = users[j].1;
            proof {
                assert(uv[j as int].1 == message_count(pre, name@));
                lemma_count_le_len(pre, name@);
            }
            let entry = (users[j].0.clone(), c + 1);
            users.set(j, entry);
            proof {
                let nv = users@.map_values(|p: (String, usize)| (p.0@, p.1 as nat));
                assert(nv =~= uv.update(j as int, (name@, (c + 1) as nat)));
                assert forall|u: Seq<char>| message_count(post, u) > 0 implies exists|k: int|
                    0 <= k < nv.len() && #[trigger] nv[k].0 == u by {
                    if u != name@ {
                        assert(message_count(pre, u) > 0);
                        let k = choose|k: int| 0 <= k < uv.len() && #[trigger] uv[k].0 == u;
                        assert(nv[k].0 == u);
                    } else {
                        assert(nv[j as int].0 == u);
                    }
                }
            }
        } else {
            users.push((name.clone(), 1));
            proof {
                let nv = users@.map_values(|p: (String, usize)| (p.0@, p.1 as nat));
                assert(nv =~= uv.push((name@, 1nat)));
                assert forall|k: int| 0 <= k < uv.len() implies #[trigger] uv[k].0 != name@ by {
                    assert(users@[k].0@ == uv[k].0);
                }
                if message_count(pre, name@) > 0 {
                    let k = choose|k: int| 0 <= k < uv.len() && #[trigger] uv[k].0 == name@;
                    assert(false);
                }
                assert forall|u: Seq<char>| message_count(post, u) > 0 implies exists|k: int|
                    0 <= k < nv.len() && #[trigger] nv[k].0 == u by {
                    if u != name@ {
                        assert(message_count(pre, u) > 0);
                        let k = choose|k: int| 0 <= k < uv.len() && #[trigger] uv[k].0 == u;
                        assert(nv[k].0 == u);
                    } else {
                        assert(nv[uv.len() as int].0 == u);
                    }
                }
            }
        }
        i = i + 1;
    }
    assert(messages@.subrange(0, messages@.len() as int) =~= messages@);
    users
}

proof fn lemma_count_taken_zero(t: Seq<bool>)
    requires
        forall|k: int| 0 <= k < t.len() ==> !t[k],
    ensures
        count_taken(t) == 0,
    decreases t.len(),
{
    if t.len() > 0 {
        lemma_count_taken_zero(t.drop_last());
    }
}

proof fn lemma_count_taken_all(t: Seq<bool>)
    requires
        count_taken(t) == t.len(),
    ensures
        forall|k: int| 0 <= k < t.len() ==> t[k],
    decreases t.len(),
{
    if t.len() > 0 {
        lemma_count_taken_full(t.drop_last(), count_taken(t.drop_last()));
        if !t.last() {
            assert(count_taken(t.drop_last()) <= t.drop_last().len());
        }
        lemma_count_taken_all(t.drop_last());
        assert forall|k: int| 0 <= k < t.len() implies t[k] by {
            if k < t.len() - 1 {
                assert(t.drop_last()[k]);
            }
        }
    }
}

/// Calculate activity statistics: the number of messages and the top contributors.
pub fn calculate_stats(messages: &[MessageDisplay]) -> (r: (usize, Vec<(String, usize)>))
    ensures
        r.0 == messages@.len(),
        is_top_contributors(messages@, r.1@.map_values(|p: (String, usize)| (p.0@, p.1 as nat))),
{
    let total = messages.len();
    let users = sender_table(messages);
    let ghost uv = users@.map_values(|p: (String, usize)| (p.0@, p.1 as nat));
    let ghost n = users@.len();
    let mut taken: Vec<bool> = Vec::new();
    let mut t: usize = 0;
    while t < users.len()
        invariant
            t <= users@.len(),
            taken@.len() == t,
            forall|k: int| 0 <= k < t ==> !taken@[k],
        decreases users.len() - t,
    {
        taken.push(false);
        t = t + 1;
    }
    proof {
        lemma_count_taken_zero(taken@);
    }
    // Pick the three largest counts, the first listed among equals.
    let mut top: Vec<(String, usize)> = Vec::new();
    let ghost mut chosen: Seq<int> = Seq::empty();
    while top.len() < 3 && top.len() < users.len()
        invariant
            n == users@.len(),
            uv == users@.map_values(|p: (String, usize)| (p.0@, p.1 as nat)),
            sender_table_ok(uv, messages@),
            taken@.len() == n,
            top@.len() == chosen.len(),
            top@.len() <= 3,
            top@.len() <= n,
            count_taken(taken@) == top@.len(),
            forall|k: int| 0 <= k < chosen.len() ==> 0 <= #[trigger] chosen[k] < n && taken@[chosen[k]]
                && top@[k] == users@[chosen[k]],
            forall|a: int, b: int| 0 <= a < b < chosen.len() ==> #[trigger] chosen[a] != #[trigger] chosen[b],
            forall|x: int| 0 <= x < n && #[trigger] taken@[x] ==> exists|k: int|
                0 <= k < chosen.len() && #[trigger] chosen[k] == x,
            forall|a: int, b: int| 0 <= a < b < top@.len() ==> (#[trigger] top@[a]).1 >= (#[trigger] top@[b]).1,
            forall|x: int| 0 <= x < n && !taken@[x] && top@.len() > 0 ==> (#[trigger] users@[x]).1
                <= top@[top@.len() - 1].1,
        decreases 3 - top@.len(),
    {
        proof {
            lemma_count_taken_full(taken@, top@.len());
        }
        // find the first untaken entry with the largest count
        let mut best: usize = users.len();
        let mut x: usize = 0;
        while x < users.len()
            invariant
                x <= users@.len(),
                taken@.len() == users@.len(),
                best == users@.len() || (best < x && !taken@[best as int]),
                best == users@.len() ==> forall|y: int| 0 <= y < x ==> taken@[y],
                best < users@.len() ==> forall|y: int|
                    0 <= y < x && !taken@[y] ==> (#[trigger] users@[y]).1 <= users@[best as int].1,
            decreases users.len() - x,
        {
            if !taken[x] {
                if best == users.len() || users[x].1 > users[best].1 {
                    best = x;
                }
            }
            x = x + 1;
        }
        let entry = (users[best].0.clone(), users[best].1);
        let ghost old_taken = taken@;
        let ghost old_top = top@;
        let ghost old_chosen = chosen;
        assert(forall|y: int| 0 <= y < n && #[trigger] old_taken[y] ==> exists|k: int|
            0 <= k < old_chosen.len() && #[trigger] old_chosen[k] == y);
        taken.set(best, true);
        proof {
            lemma_count_taken_set(old_taken, best as int);
        }
        top.push(entry);
        proof {
            chosen = chosen.push(best as int);
            assert(top@[top@.len() - 1] == users@[best as int]);
            assert forall|k: int| 0 <= k < chosen.len() implies 0 <= #[trigger] chosen[k] < n && taken@[chosen[k]]
                && top@[k] == users@[chosen[k]] by {
                if k < chosen.len() - 1 {
                    assert(old_top[k] == top@[k]);
                }
            }
            assert forall|y: int| 0 <= y < n && #[trigger] taken@[y] implies exists|k: int|
                0 <= k < chosen.len() && #[trigger] chosen[k] == y by {
                if y != best {
                    assert(old_taken[y]);
                    let k = choose|k: int| 0 <= k < old_chosen.len() && #[trigger] old_chosen[k] == y;
                    assert(chosen[k] == y);
                } else {
                    assert(chosen[chosen.len() - 1] == y);
                }
            }
            assert forall|a: int, b: int| 0 <= a < b < top@.len() implies (#[trigger] top@[a]).1 >= (#[trigger] top@[b]).1 by {
                if b == top@.len() - 1 {
                    if a < b {
                        assert(old_top[a] == top@[a]);
                        if old_top.len() > 0 {
                            assert(old_top[a].1 >= old_top[old_top.len() - 1].1);
                        }
                    }
                } else {
                    assert(old_top[a] == top@[a]);
                    assert(old_top[b] == top@[b]);
                }
            }
            assert forall|a: int, b: int| 0 <= a < b < chosen.len() implies #[trigger] chosen[a] != #[trigger] chosen[b] by {
                if b == chosen.len() - 1 {
                    assert(old_taken[chosen[a]]);
                }
            }
        }
    }
    proof {
        let tv = top@.map_values(|p: (String, usize)| (p.0@, p.1 as nat));
        assert forall|k: int| 0 <= k < tv.len() implies #[trigger] tv[k].1 == message_count(messages@, tv[k].0)
            && tv[k].1 >= 1 by {
            assert(uv[chosen[k]] == tv[k]);
        }
        assert forall|a: int, b: int| 0 <= a < b < tv.len() implies #[trigger] tv[a].0 != #[trigger] tv[b].0
            && tv[a].1 >= tv[b].1 by {
            assert(uv[chosen[a]] == tv[a]);
            assert(uv[chosen[b]] == tv[b]);
            if chosen[a] < chosen[b] {
                assert(uv[chosen[a]].0 != uv[chosen[b]].0);
            } else {
                assert(uv[chosen[b]].0 != uv[chosen[a]].0);
            }
        }
        assert forall|i: int| 0 <= i < messages@.len() implies (exists|k: int|
            0 <= k < tv.len() && #[trigger] tv[k].0 == (#[trigger] messages@[i]).sender_username@) || (
        tv.len() == 3 && message_count(messages@, messages@[i].sender_username@) <= tv[2].1) by {
            let u = messages@[i].sender_username@;
            lemma_count_positive(messages@, i);
            let x = choose|x: int| 0 <= x < uv.len() && #[trigger] uv[x].0 == u;
            if taken@[x] {
                let k = choose|k: int| 0 <= k < chosen.len() && #[trigger] chosen[k] == x;
                assert(uv[chosen[k]] == tv[k]);
                assert(tv[k].0 == u);
            } else {
                if top@.len() == n {
                    lemma_count_taken_all(taken@);
                    assert(false);
                }
                assert(users@[x].1 <= top@[top@.len() - 1].1);
                assert(uv[x].1 == message_count(messages@, u));
            }
        }
    }
    (total, top)
}

/// Number of `true` entries.
pub open spec fn count_taken(t: Seq<bool>) -> nat
    decreases t.len(),
{
    if t.len() == 0 {
        0
    } else {
        count_taken(t.drop_last()) + if t.last() {
            1nat
        } else {
            0nat
        }
    }
}

proof fn lemma_count_taken_full(t: Seq<bool>, n: nat)
    requires
        count_taken(t) == n,
    ensures
        n <= t.len(),
        n < t.len() ==> exists|x: int| 0 <= x < t.len() && !t[x],
    decreases t.len(),
{
    if t.len() > 0 {
        let m = if t.last() { (n - 1) as nat } else { n };
        lemma_count_taken_full(t.drop_last(), m);
        if n < t.len() && t.last() {
            let x = choose|x: int| 0 <= x < t.drop_last().len() && !t.drop_last()[x];
            assert(!t[x]);
        }
    }
}

proof fn lemma_count_taken_set(t: Seq<bool>, i: int)
    requires
        0 <= i < t.len(),
        !t[i],
    ensures
        count_taken(t.update(i, true)) == count_taken(t) + 1,
    decreases t.len(),
{
    if i < t.len() - 1 {
        lemma_count_taken_set(t.drop_last(), i);
        assert(t.update(i, true).drop_last() =~= t.drop_last().update(i, true));
    } else {
        assert(t.update(i, true).drop_last() =~= t.drop_last());
    }
}

proof fn lemma_count_positive(msgs: Seq<MessageDisplay>, i: int)
    requires
        0 <= i < msgs.len(),
    ensures
        message_count(msgs, msgs[i].sender_username@) > 0,
    decreases msgs.len(),
{
    if i < msgs.len() - 1 {
        lemma_count_positive(msgs.drop_last(), i);
    }
}

} // verus!
