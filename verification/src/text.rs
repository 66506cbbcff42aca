//! Trimming of text at its ends.

use vstd::prelude::*;

verus! {

/// A class of characters that are trimmed together.
#[derive(Debug, Clone, Copy, PartialEq, Eq, Structural)]
pub enum CharClass {
    /// The character `/`.
    Slash,
    /// The characters with the Unicode property `White_Space`.
    WhiteSpace,
}

/// Unicode property `White_Space`.
pub open spec fn is_white_space(c: char) -> bool {
    ||| '\u{9}' <= c <= '\u{D}'
    ||| c == '\u{20}' || c == '\u{85}' || c == '\u{A0}' || c == '\u{1680}'
    ||| '\u{2000}' <= c <= '\u{200A}'
    ||| c == '\u{2028}' || c == '\u{2029}' || c == '\u{202F}' || c == '\u{205F}' || c == '\u{3000}'
}

impl CharClass {
    /// Whether `c` is of this class.
    pub open spec fn has(self, c: char) -> bool {
        match self {
            CharClass::Slash => c == '/',
            CharClass::WhiteSpace => is_white_space(c),
        }
    }

    /// Whether `c` is of this class.
    pub fn contains(self, c: char) -> (r: bool)
        ensures
            r == self.has(c),
    {
        match self {
            CharClass::Slash => c == '/',
            CharClass::WhiteSpace => ('\u{9}' <= c && c <= '\u{D}') || c == '\u{20}' || c
                == '\u{85}' || c == '\u{A0}' || c == '\u{1680}' || ('\u{2000}' <= c && c
                <= '\u{200A}') || c == '\u{2028}' || c == '\u{2029}' || c == '\u{202F}' || c
                == '\u{205F}' || c == '\u{3000}',
        }
    }
}

/// `s` without the characters of `class` at its start.
pub open spec fn trim_start(s: Seq<char>, class: CharClass) -> Seq<char>
    decreases s.len(),
{
    if s.len() > 0 && class.has(s.first()) {
        trim_start(s.drop_first(), class)
    } else {
        s
    }
}

/// `s` without the characters of `class` at its end.
pub open spec fn trim_end(s: Seq<char>, class: CharClass) -> Seq<char>
    decreases s.len(),
{
    if s.len() > 0 && class.has(s.last()) {
        trim_end(s.drop_last(), class)
    } else {
        s
    }
}

/// `s` without the characters of `class` at either end.
pub open spec fn trim(s: Seq<char>, class: CharClass) -> Seq<char> {
    trim_end(trim_start(s, class), class)
}

/// Whether all of `s` is of `class`.
pub open spec fn consists_of(s: Seq<char>, class: CharClass) -> bool {
    forall|i: int| 0 <= i < s.len() ==> class.has(#[trigger] s[i])
}

/// What is cut from the start is all of the class, and what is left does not
/// start with a character of the class.
pub proof fn law_trim_start_cuts_class(s: Seq<char>, class: CharClass) -> (cut: Seq<char>)
    ensures
        s == cut + trim_start(s, class),
        consists_of(cut, class),
        trim_start(s, class).len() > 0 ==> !class.has(trim_start(s, class).first()),
    decreases s.len(),
{
    if s.len() > 0 && class.has(s.first()) {
        let rest = law_trim_start_cuts_class(s.drop_first(), class);
        let cut = seq![s.first()] + rest;
        assert(cut + trim_start(s, class) =~= seq![s.first()] + s.drop_first());
        assert(seq![s.first()] + s.drop_first() =~= s);
        cut
    } else {
        let cut = Seq::<char>::empty();
        assert(cut + s =~= s);
        cut
    }
}

/// What is cut from the end is all of the class, and what is left does not end
/// with a character of the class.
pub proof fn law_trim_end_cuts_class(s: Seq<char>, class: CharClass) -> (cut: Seq<char>)
    ensures
        s == trim_end(s, class) + cut,
        consists_of(cut, class),
        trim_end(s, class).len() > 0 ==> !class.has(trim_end(s, class).last()),
    decreases s.len(),
{
    if s.len() > 0 && class.has(s.last()) {
        let rest = law_trim_end_cuts_class(s.drop_last(), class);
        let cut = rest.push(s.last());
        assert(trim_end(s, class) + cut =~= (trim_end(s, class) + rest).push(s.last()));
        assert(s.drop_last().push(s.last()) =~= s);
        cut
    } else {
        let cut = Seq::<char>::empty();
        assert(s + cut =~= s);
        cut
    }
}

/// Trimming text that is already trimmed changes nothing: a trimmed text has a
/// character of the class at neither end.
pub proof fn law_trim_is_final(s: Seq<char>, class: CharClass)
    ensures
        trim(trim(s, class), class) == trim(s, class),
        trim(s, class).len() > 0 ==> {
            &&& !class.has(trim(s, class).first())
            &&& !class.has(trim(s, class).last())
        },
{
    let left = trim_start(s, class);
    let both = trim_end(left, class);
    let _ = law_trim_start_cuts_class(s, class);
    let cut = law_trim_end_cuts_class(left, class);
    if both.len() > 0 {
        assert(both.first() == left.first());
    }
}

/// Text is trimmed to nothing exactly if all of it is of the class.
pub proof fn law_trim_to_nothing(s: Seq<char>, class: CharClass)
    ensures
        trim(s, class).len() == 0 <==> consists_of(s, class),
{
    let left = trim_start(s, class);
    let head = law_trim_start_cuts_class(s, class);
    let tail = law_trim_end_cuts_class(left, class);
    if trim(s, class).len() == 0 {
        assert(s =~= head + tail);
    } else {
        law_trim_is_final(s, class);
        let at = head.len() as int;
        assert(s[at] == left.first());
        assert(left.first() == trim(s, class).first());
    }
}

/// More characters of the class in front do not change the trimmed text.
pub proof fn lemma_trim_start_absorbs(front: Seq<char>, s: Seq<char>, class: CharClass)
    requires
        consists_of(front, class),
    ensures
        trim_start(front + s, class) == trim_start(s, class),
    decreases front.len(),
{
    if front.len() > 0 {
        assert(class.has(front[0]));
        assert((front + s).drop_first() =~= front.drop_first() + s);
        assert forall|i: int| 0 <= i < front.drop_first().len() implies class.has(
            #[trigger] front.drop_first()[i],
        ) by {
            assert(class.has(front[i + 1]));
        }
        lemma_trim_start_absorbs(front.drop_first(), s, class);
    } else {
        assert(front + s =~= s);
    }
}

/// More characters of the class behind do not change the trimmed text.
pub proof fn lemma_trim_end_absorbs(s: Seq<char>, back: Seq<char>, class: CharClass)
    requires
        consists_of(back, class),
    ensures
        trim_end(s + back, class) == trim_end(s, class),
    decreases back.len(),
{
    if back.len() > 0 {
        assert(class.has(back[back.len() - 1]));
        assert((s + back).drop_last() =~= s + back.drop_last());
        assert forall|i: int| 0 <= i < back.drop_last().len() implies class.has(
            #[trigger] back.drop_last()[i],
        ) by {
            assert(class.has(back[i]));
        }
        lemma_trim_end_absorbs(s, back.drop_last(), class);
    } else {
        assert(s + back =~= s);
    }
}

/// A run of the class in front is cut, whatever follows it, and nothing else:
/// `rest` is any text that does not start with a character of the class.
pub proof fn law_trim_start_leaves_rest(front: Seq<char>, rest: Seq<char>, class: CharClass)
    requires
        forall|i: int| 0 <= i < front.len() ==> class.has(#[trigger] front[i]),
        rest.len() > 0 ==> !class.has(rest[0]),
    ensures
        trim_start(front + rest, class) == rest,
{
    lemma_trim_start_absorbs(front, rest, class);
}

/// A run of the class behind is cut, whatever precedes it, and nothing else:
/// `rest` is any text that does not end with a character of the class.
pub proof fn law_trim_end_leaves_rest(rest: Seq<char>, back: Seq<char>, class: CharClass)
    requires
        forall|i: int| 0 <= i < back.len() ==> class.has(#[trigger] back[i]),
        rest.len() > 0 ==> !class.has(rest[rest.len() - 1]),
    ensures
        trim_end(rest + back, class) == rest,
{
    lemma_trim_end_absorbs(rest, back, class);
}

/// Runs of the class at both ends are cut, and the whole of what is between
/// them is left.
pub proof fn law_trim_leaves_middle(
    front: Seq<char>,
    middle: Seq<char>,
    back: Seq<char>,
    class: CharClass,
)
    requires
        forall|i: int| 0 <= i < front.len() ==> class.has(#[trigger] front[i]),
        forall|i: int| 0 <= i < back.len() ==> class.has(#[trigger] back[i]),
        middle.len() > 0,
        !class.has(middle[0]),
        !class.has(middle[middle.len() - 1]),
    ensures
        trim(front + middle + back, class) == middle,
{
    assert(front + middle + back =~= front + (middle + back));
    assert((middle + back)[0] == middle[0]);
    law_trim_start_leaves_rest(front, middle + back, class);
    law_trim_end_leaves_rest(middle, back, class);
}

/// The class of the slash has no other character.
pub proof fn law_slash_is_alone(c: char)
    ensures
        CharClass::Slash.has(c) <==> c == '/',
        CharClass::WhiteSpace.has(c) <==> is_white_space(c),
        CharClass::WhiteSpace.has(c) ==> c != '/',
{
}

/// `s` without the characters of `class` at its start.
pub fn trim_start_matches(s: &str, class: CharClass) -> (r: &str)
    ensures
        r@ == trim_start(s@, class),
        forall|front: Seq<char>, rest: Seq<char>|
            s@ == #[trigger] (front + rest) && (forall|i: int|
                0 <= i < front.len() ==> class.has(#[trigger] front[i])) && (rest.len() > 0
                ==> !class.has(rest[0])) ==> r@ == rest,
{
    proof {
        assert forall|front: Seq<char>, rest: Seq<char>|
            s@ == #[trigger] (front + rest) && (forall|i: int|
                0 <= i < front.len() ==> class.has(#[trigger] front[i])) && (rest.len() > 0
                ==> !class.has(rest[0])) implies trim_start(s@, class) == rest by {
            law_trim_start_leaves_rest(front, rest, class);
        }
    }
    let len = s.unicode_len();
    let mut at: usize = 0;
    assert(s@.skip(0) =~= s@);
    while at < len && class.contains(s.get_char(at))
        invariant
            len == s@.len(),
            at <= len,
            trim_start(s@, class) == trim_start(s@.skip(at as int), class),
        decreases len - at,
    {
        assert(s@.skip(at as int).drop_first() =~= s@.skip(at + 1));
        at = at + 1;
    }
    assert(s@.skip(at as int) =~= s@.subrange(at as int, len as int));
    s.substring_char(at, len)
}

/// `s` without the characters of `class` at its end.
pub fn trim_end_matches(s: &str, class: CharClass) -> (r: &str)
    ensures
        r@ == trim_end(s@, class),
        forall|rest: Seq<char>, back: Seq<char>|
            s@ == #[trigger] (rest + back) && (forall|i: int|
                0 <= i < back.len() ==> class.has(#[trigger] back[i])) && (rest.len() > 0
                ==> !class.has(rest[rest.len() - 1])) ==> r@ == rest,
{
    proof {
        assert forall|rest: Seq<char>, back: Seq<char>|
            s@ == #[trigger] (rest + back) && (forall|i: int|
                0 <= i < back.len() ==> class.has(#[trigger] back[i])) && (rest.len() > 0
                ==> !class.has(rest[rest.len() - 1])) implies trim_end(s@, class) == rest by {
            law_trim_end_leaves_rest(rest, back, class);
        }
    }
    let mut end = s.unicode_len();
    assert(s@.take(end as int) =~= s@);
    while end > 0 && class.contains(s.get_char(end - 1))
        invariant
            end <= s@.len(),
            trim_end(s@, class) == trim_end(s@.take(end as int), class),
        decreases end,
    {
        assert(s@.take(end as int).drop_last() =~= s@.take(end - 1));
        end = end - 1;
    }
    assert(s@.take(end as int) =~= s@.subrange(0, end as int));
    s.substring_char(0, end)
}

} // verus!
