//! The `fuyu` command: a Markov chain that is fed the paragraphs of a chat
//! log and then asked for a text of its own making.

use crate::text::{joined, views};
use vstd::prelude::*;
use vstd::std_specs::iter::IteratorSpec;

verus! {

/// `String::push`: appends one character.
#[verifier::external_body]
fn push_char(s: &mut String, c: char)
    ensures
        final(s)@ == old(s)@.push(c),
{
    s.push(c)
}

/// Whether an empty line parts the text at position `i`: two line feeds
/// stand there, one after the other.
pub open spec fn breaks_at(s: Seq<char>, i: int) -> bool {
    0 <= i && i + 1 < s.len() && s[i] == '\n' && s[i + 1] == '\n'
}

/// The paragraphs of a text: what stands between the pairs of line feeds,
/// where the pairs are taken from the left and do not overlap.
pub open spec fn paragraphs(s: Seq<char>) -> Seq<Seq<char>>
    decreases s.len(),
{
    if s.len() == 0 {
        seq![Seq::empty()]
    } else if breaks_at(s, 0) {
        seq![Seq::empty()] + paragraphs(s.skip(2))
    } else {
        let rest = paragraphs(s.drop_first());
        rest.update(0, seq![s[0]] + rest[0])
    }
}

/// Every text has a first paragraph.
pub proof fn lemma_paragraphs_exist(s: Seq<char>)
    ensures
        paragraphs(s).len() >= 1,
    decreases s.len(),
{
    if s.len() == 0 {
    } else if breaks_at(s, 0) {
    } else {
        lemma_paragraphs_exist(s.drop_first());
    }
}

/// Where no empty line begins between `a` and `b`, the text between them
/// is the beginning of one paragraph.
proof fn lemma_paragraph_grows(s: Seq<char>, a: int, b: int)
    requires
        0 <= a <= b <= s.len(),
        forall|j: int| a <= j < b ==> !breaks_at(s, j),
    ensures
        paragraphs(s.skip(a)) == paragraphs(s.skip(b)).update(
            0,
            s.subrange(a, b) + paragraphs(s.skip(b))[0],
        ),
    decreases b - a,
{
    let tail = paragraphs(s.skip(b));
    lemma_paragraphs_exist(s.skip(b));
    if a == b {
        assert(s.subrange(a, b) + tail[0] =~= tail[0]);
        assert(tail.update(0, tail[0]) =~= tail);
    } else {
        let here = s.skip(a);
        assert(here.len() > 0);
        assert(!breaks_at(s, a));
        assert(!breaks_at(here, 0));
        assert(here.drop_first() =~= s.skip(a + 1));
        lemma_paragraph_grows(s, a + 1, b);
        let next = paragraphs(s.skip(a + 1));
        assert(seq![s[a]] + (s.subrange(a + 1, b) + tail[0]) =~= s.subrange(a, b) + tail[0]);
        assert(next.update(0, seq![here[0]] + next[0]) =~= tail.update(
            0,
            s.subrange(a, b) + tail[0],
        ));
    }
}

/// Parts a text into its paragraphs.
pub fn split_paragraphs(text: &str) -> (parts: Vec<String>)
    ensures
        views(parts@) == paragraphs(text@),
{
    let ghost s = text@;
    let mut parts: Vec<String> = Vec::new();
    let mut current = String::new();
    let mut pending = false;
    let ghost mut start: int = 0;
    proof {
        assert(s.skip(0) =~= s);
        assert(views(parts@) + paragraphs(s) =~= paragraphs(s));
    }
    for c in it: text.chars()
        invariant
            it.seq() == s,
            s == text@,
            0 <= start <= it.index() - (if pending { 1int } else { 0int }),
            pending ==> s[it.index() - 1] == '\n',
            current@ == s.subrange(start, it.index() - (if pending { 1int } else { 0int })),
            forall|j: int|
                start <= j < it.index() - (if pending { 1int } else { 0int }) ==> !breaks_at(s, j),
            paragraphs(s) == views(parts@) + paragraphs(s.skip(start)),
    {
        let ghost i = it.index() as int;
        assert(c == s[i]);
        if c == '\n' {
            if pending {
                proof {
                    lemma_paragraph_grows(s, start, i - 1);
                    let here = s.skip(i - 1);
                    assert(breaks_at(here, 0));
                    assert(here.skip(2) =~= s.skip(i + 1));
                    let tail = paragraphs(s.skip(i + 1));
                    assert(paragraphs(here) == seq![Seq::<char>::empty()] + tail);
                    assert(s.subrange(start, i - 1) + Seq::<char>::empty() =~= current@);
                    assert(paragraphs(s.skip(start)) =~= seq![current@] + tail);
                    assert(views(parts@.push(current)) =~= views(parts@) + seq![current@]);
                    assert(views(parts@) + (seq![current@] + tail) =~= (views(parts@)
                        + seq![current@]) + tail);
                    start = i + 1;
                }
                parts.push(current);
                current = String::new();
                pending = false;
                assert(current@ =~= s.subrange(start, i + 1));
            } else {
                pending = true;
            }
        } else {
            if pending {
                push_char(&mut current, '\n');
                pending = false;
            }
            push_char(&mut current, c);
            assert(current@ =~= s.subrange(start, i + 1));
        }
    }
    if pending {
        push_char(&mut current, '\n');
    }
    proof {
        let n = s.len() as int;
        assert(current@ =~= s.subrange(start, n));
        lemma_paragraph_grows(s, start, n);
        assert(s.skip(n) =~= Seq::<char>::empty());
        assert(s.subrange(start, n) + Seq::<char>::empty() =~= current@);
        assert(paragraphs(s.skip(start)) =~= seq![current@]);
        assert(views(parts@.push(current)) =~= views(parts@) + seq![current@]);
    }
    parts.push(current);
    parts
}

/// A Markov chain over the words of the texts it was fed, kept by
/// `markov::Chain<String>`.
#[verifier::external_body]
pub struct TextChain {
    chain: markov::Chain<String>,
}

/// The texts that a chain was fed, in the order in which they came.
pub uninterp spec fn fed(chain: TextChain) -> Seq<Seq<char>>;

/// `markov::Chain::new`: a chain of order 1 that was fed nothing.
#[verifier::external_body]
fn new_chain() -> (chain: TextChain)
    ensures
        fed(chain) == Seq::<Seq<char>>::empty(),
{
    TextChain { chain: markov::Chain::new() }
}

/// `markov::Chain::feed_str`: feeds the chain the words of `text`, which are
/// what single blanks part. Every text has at least one word, so the chain
/// has taken something in afterwards.
#[verifier::external_body]
fn feed_str(chain: &mut TextChain, text: &str)
    ensures
        fed(*final(chain)) == fed(*old(chain)).push(text@),
{
    chain.chain.feed_str(text);
}

/// `markov::Chain::is_empty`: whether the chain was fed nothing yet.
#[verifier::external_body]
fn is_empty(chain: &TextChain) -> (empty: bool)
    ensures
        empty == (fed(*chain).len() == 0),
{
    chain.chain.is_empty()
}

/// The words of a text: what single blanks part. A text without a blank
/// is one word, and two blanks in a row have an empty word between them.
pub open spec fn words(s: Seq<char>) -> Seq<Seq<char>>
    decreases s.len(),
{
    if s.len() == 0 {
        seq![Seq::empty()]
    } else if s.last() == ' ' {
        words(s.drop_last()).push(Seq::empty())
    } else {
        let before = words(s.drop_last());
        before.update(before.len() - 1, before.last().push(s.last()))
    }
}

/// One of the texts begins with the word `w`.
pub open spec fn begins(texts: Seq<Seq<char>>, w: Seq<char>) -> bool {
    exists|i: int| 0 <= i < texts.len() && #[trigger] words(texts[i]).first() == w
}

/// One of the texts ends with the word `w`.
pub open spec fn ends(texts: Seq<Seq<char>>, w: Seq<char>) -> bool {
    exists|i: int| 0 <= i < texts.len() && #[trigger] words(texts[i]).last() == w
}

/// In one of the texts the word `b` comes right after the word `a`.
pub open spec fn follows(texts: Seq<Seq<char>>, a: Seq<char>, b: Seq<char>) -> bool {
    exists|i: int, k: int|
        0 <= i < texts.len() && 0 <= k && k + 1 < words(texts[i]).len() && #[trigger] words(
            texts[i],
        )[k] == a && words(texts[i])[k + 1] == b
}

/// The words `said` are a walk through the texts: the first begins one of
/// them, the last ends one of them, and each of the others comes right
/// after the one before it in one of them.
pub open spec fn walk(texts: Seq<Seq<char>>, said: Seq<Seq<char>>) -> bool {
    &&& said.len() >= 1
    &&& begins(texts, said.first())
    &&& ends(texts, said.last())
    &&& forall|k: int|
        0 <= k && k + 1 < said.len() ==> follows(texts, #[trigger] said[k], said[k + 1])
}

/// A chain that was fed `texts` can say `text`: it is a walk through the
/// texts, written with single blanks between the words.
pub open spec fn can_say(texts: Seq<Seq<char>>, text: Seq<char>) -> bool {
    exists|said: Seq<Seq<char>>| walk(texts, said) && text == #[trigger] joined(said, " "@)
}

/// `markov::Chain::generate_str`: a text that the chain makes up at random
/// from the words it was fed. Which text comes is not claimed, only what
/// every such text is: the chain starts with a word that began a text it
/// was fed, goes on from each word to one that followed it in such a text,
/// stops after a word that ended one, and writes the words with single
/// blanks between them. On a chain that was fed nothing the call panics.
#[verifier::external_body]
fn generate_str(chain: &TextChain) -> (text: String)
    requires
        fed(*chain).len() > 0,
    ensures
        can_say(fed(*chain), text@),
{
    chain.chain.generate_str()
}

impl TextChain {
    /// A text of the chain's own making; `None` from a chain that was fed
    /// nothing.
    pub fn generate(&self) -> (text: Option<String>)
        ensures
            text is Some <==> fed(*self).len() > 0,
    {
        if is_empty(self) {
            None
        } else {
            Some(generate_str(self))
        }
    }
}

/// The chain that was fed the paragraphs of `chat_logs`, one after
/// another.
pub fn create_chain(chat_logs: &str) -> (chain: TextChain)
    ensures
        fed(chain) == paragraphs(chat_logs@),
        fed(chain).len() > 0,
{
    let parts = split_paragraphs(chat_logs);
    let mut chain = new_chain();
    let mut i: usize = 0;
    while i < parts.len()
        invariant
            i <= parts.len(),
            fed(chain) == views(parts@).take(i as int),
        decreases parts.len() - i,
    {
        feed_str(&mut chain, parts[i].as_str());
        assert(views(parts@).take(i + 1) =~= views(parts@).take(i as int).push(parts@[i as int]@));
        i += 1;
    }
    proof {
        assert(views(parts@).take(i as int) =~= views(parts@));
        lemma_paragraphs_exist(chat_logs@);
    }
    chain
}

/// The `fuyu` command: feeds a chain the paragraphs of `chat_logs` and
/// answers with a text that the chain makes up: a walk through the words
/// of the paragraphs. Which walk it is, chance decides.
pub fn handler(chat_logs: &str) -> (response: String)
    ensures
        can_say(paragraphs(chat_logs@), response@),
{
    let chain = create_chain(chat_logs);
    generate_str(&chain)
}

} // verus!
