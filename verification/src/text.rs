//! Text: the few operations on strings that the boot sequence decides by.

use vstd::prelude::*;

verus! {

/// `String::push` appends one character.
pub assume_specification[ String::push ](s: &mut String, ch: char)
    ensures
        final(s)@ == old(s)@.push(ch),
;

/// How a list of strings reads in `{:?}` notation.
pub uninterp spec fn list_debug(list: Seq<Seq<char>>) -> Seq<char>;

/// Formats a list of strings with `{:?}`, as `std::fmt::Debug` writes it for a slice of `String`.
/// The contract only names the text, as a function of the strings alone.
#[verifier::external_body]
pub(crate) fn debug_list(list: &Vec<String>) -> (r: String)
    ensures
        r@ == list_debug(list.deep_view()),
{
    format!("{:?}", list)
}

/// Do the two texts hold the same characters?
pub fn same_text(a: &str, b: &str) -> (r: bool)
    ensures
        r == (a@ == b@),
{
    a.to_owned() == b.to_owned()
}

/// Two texts, one after the other.
pub fn cat2(a: &str, b: &str) -> (r: String)
    ensures
        r@ == a@ + b@,
{
    let mut out = a.to_owned();
    out.append(b);
    out
}

/// Three texts, one after the other.
pub fn cat3(a: &str, b: &str, c: &str) -> (r: String)
    ensures
        r@ == a@ + b@ + c@,
{
    let mut out = a.to_owned();
    out.append(b);
    out.append(c);
    out
}

/// Four texts, one after the other.
pub fn cat4(a: &str, b: &str, c: &str, d: &str) -> (r: String)
    ensures
        r@ == a@ + b@ + c@ + d@,
{
    let mut out = a.to_owned();
    out.append(b);
    out.append(c);
    out.append(d);
    out
}

/// A copy of an optional text.
pub fn copy_of(text: &Option<String>) -> (r: Option<String>)
    ensures
        r == *text,
{
    match text {
        Some(t) => Some(t.clone()),
        None => None,
    }
}

/// Is `item` among the texts of `list`?
pub fn lists(list: &Vec<String>, item: &str) -> (r: bool)
    ensures
        r == list.deep_view().contains(item@),
{
    let ghost all = list.deep_view();
    let mut i: usize = 0;
    while i < list.len()
        invariant
            i <= list.len(),
            all == list.deep_view(),
            forall|j: int| 0 <= j < i ==> all[j] != item@,
        decreases list.len() - i,
    {
        assert(all[i as int] == list[i as int]@);
        if same_text(list[i].as_str(), item) {
            return true;
        }
        i += 1;
    }
    false
}

// ---------------------------------------------------------------------------------------------
// White space.
// ---------------------------------------------------------------------------------------------

/// The characters with the Unicode property `White_Space`.
pub open spec fn white_space(c: char) -> bool {
    let n = c as u32;
    ||| 0x9 <= n <= 0xd
    ||| n == 0x20
    ||| n == 0x85
    ||| n == 0xa0
    ||| n == 0x1680
    ||| 0x2000 <= n <= 0x200a
    ||| n == 0x2028
    ||| n == 0x2029
    ||| n == 0x202f
    ||| n == 0x205f
    ||| n == 0x3000
}

/// Does the character have the Unicode property `White_Space`?
pub fn is_white_space(c: char) -> (r: bool)
    ensures
        r == white_space(c),
{
    let n: u32 = c as u32;
    (0x9 <= n && n <= 0xd) || n == 0x20 || n == 0x85 || n == 0xa0 || n == 0x1680 || (0x2000 <= n
        && n <= 0x200a) || n == 0x2028 || n == 0x2029 || n == 0x202f || n == 0x205f || n == 0x3000
}

/// `text` from `i` up to `j` is a word: it is not empty, it holds no white space, and it cannot be
/// made longer at either end without taking in white space.
pub open spec fn word_at(text: Seq<char>, i: int, j: int) -> bool {
    &&& 0 <= i < j <= text.len()
    &&& forall|k: int| i <= k < j ==> !white_space(#[trigger] text[k])
    &&& i == 0 || white_space(text[i - 1])
    &&& j == text.len() || white_space(text[j])
}

/// `word` is one of the words of `text`.
pub open spec fn has_word(text: Seq<char>, word: Seq<char>) -> bool {
    exists|i: int, j: int| #[trigger] word_at(text, i, j) && text.subrange(i, j) == word
}

/// A word is not empty and holds no white space, so that no text has any other among its words.
pub proof fn law_words_hold_no_white_space(text: Seq<char>, word: Seq<char>)
    requires
        has_word(text, word),
    ensures
        word.len() > 0,
        forall|k: int| 0 <= k < word.len() ==> !white_space(#[trigger] word[k]),
{
    let (i, j) = choose|i: int, j: int|
        #[trigger] word_at(text, i, j) && text.subrange(i, j) == word;
    assert forall|k: int| 0 <= k < word.len() implies !white_space(#[trigger] word[k]) by {
        assert(word[k] == text[i + k]);
    }
}

/// A text has a word exactly if it can be parted in three: what comes before, the word, and what comes
/// after, where the word is not empty and holds no white space, and white space or an end of the text
/// bounds it on either side.
pub proof fn law_a_word_stands_between_white_space(text: Seq<char>, word: Seq<char>)
    ensures
        has_word(text, word) <==> exists|before: Seq<char>, after: Seq<char>|
            text == #[trigger] (before + word + after) && word.len() > 0 && (forall|k: int|
                0 <= k < word.len() ==> !white_space(#[trigger] word[k])) && (before.len() == 0
                || white_space(before.last())) && (after.len() == 0 || white_space(after[0])),
{
    if has_word(text, word) {
        let (i, j) = choose|i: int, j: int|
            #[trigger] word_at(text, i, j) && text.subrange(i, j) == word;
        let before = text.take(i);
        let after = text.skip(j);
        assert(text =~= before + word + after);
        law_words_hold_no_white_space(text, word);
    }
    if exists|before: Seq<char>, after: Seq<char>|
        text == #[trigger] (before + word + after) && word.len() > 0 && (forall|k: int|
            0 <= k < word.len() ==> !white_space(#[trigger] word[k])) && (before.len() == 0
            || white_space(before.last())) && (after.len() == 0 || white_space(after[0])) {
        let (before, after) = choose|before: Seq<char>, after: Seq<char>|
            text == #[trigger] (before + word + after) && word.len() > 0 && (forall|k: int|
                0 <= k < word.len() ==> !white_space(#[trigger] word[k])) && (before.len() == 0
                || white_space(before.last())) && (after.len() == 0 || white_space(after[0]));
        let i = before.len() as int;
        let j = i + word.len();
        assert forall|k: int| i <= k < j implies !white_space(#[trigger] text[k]) by {
            assert(text[k] == word[k - i]);
        }
        assert(word_at(text, i, j));
        assert(text.subrange(i, j) =~= word);
    }
}

/// The characters of a text.
fn chars_of(text: &str) -> (r: Vec<char>)
    ensures
        r@ == text@,
{
    let mut out: Vec<char> = Vec::new();
    for c in it: text.chars()
        invariant
            it.seq() == text@,
            out@ =~= it.seq().take(it.index()),
    {
        out.push(c);
    }
    assert(text@.take(text@.len() as int) =~= text@);
    out
}

/// Is `word` one of the words of `text`, as white space parts them?
pub fn find_word(text: &str, word: &str) -> (r: bool)
    ensures
        r == has_word(text@, word@),
{
    let chars = chars_of(text);
    let n: usize = chars.len();
    let mut i: usize = 0;
    while i < n
        invariant
            chars@ == text@,
            n == text@.len(),
            i <= n,
            i == 0 || i == n || white_space(text@[i - 1]) || white_space(text@[i as int]),
            forall|a: int, b: int|
                a < i && #[trigger] word_at(text@, a, b) ==> text@.subrange(a, b) != word@,
        decreases n - i,
    {
        if is_white_space(chars[i]) {
            i += 1;
        } else {
            let start: usize = i;
            while i < n && !is_white_space(chars[i])
                invariant
                    chars@ == text@,
                    n == text@.len(),
                    start <= i <= n,
                    forall|k: int| start <= k < i ==> !white_space(#[trigger] text@[k]),
                decreases n - i,
            {
                i += 1;
            }
            assert(start < i);
            assert(word_at(text@, start as int, i as int));
            let piece = text.substring_char(start, i);
            if same_text(piece, word) {
                return true;
            }
            assert forall|a: int, b: int| a < i && #[trigger] word_at(text@, a, b) implies
                text@.subrange(a, b) != word@ by {
                if a > start {
                    assert(!white_space(text@[a - 1]));
                } else if a == start {
                    if b < i {
                        assert(!white_space(text@[b]));
                    } else if b > i {
                        assert(!white_space(text@[i as int]));
                    }
                }
            }
        }
    }
    assert forall|a: int, b: int| #[trigger] word_at(text@, a, b) implies text@.subrange(a, b)
        != word@ by {
        assert(a < n);
    }
    false
}

/// `s` without the white space at its start.
pub open spec fn trim_start(s: Seq<char>) -> Seq<char>
    decreases s.len(),
{
    if s.len() > 0 && white_space(s[0]) {
        trim_start(s.skip(1))
    } else {
        s
    }
}

/// `s` without the white space at its end.
pub open spec fn trim_end(s: Seq<char>) -> Seq<char>
    decreases s.len(),
{
    if s.len() > 0 && white_space(s.last()) {
        trim_end(s.drop_last())
    } else {
        s
    }
}

/// `s` without the white space at its start and at its end.
pub open spec fn trim(s: Seq<char>) -> Seq<char> {
    trim_end(trim_start(s))
}

/// What is left of a text has no white space at either end, and is a part of it.
pub proof fn law_trimming_leaves_no_white_space(s: Seq<char>)
    ensures
        trim(s).len() > 0 ==> !white_space(trim(s)[0]) && !white_space(trim(s).last()),
        trim(trim(s)) == trim(s),
        forall|c: char| trim(s).contains(c) ==> s.contains(c),
{
    let t = trim_start(s);
    lemma_trim_start(s);
    lemma_trim_end(t);
    assert forall|c: char| trim(s).contains(c) implies s.contains(c) by {
        assert(t.contains(c));
    }
}

/// Trimming takes away white space at the ends, and nothing else.
pub proof fn law_trimming_takes_only_white_space(s: Seq<char>)
    ensures
        exists|left: Seq<char>, right: Seq<char>|
            s == #[trigger] (left + trim(s) + right) && (forall|i: int|
                0 <= i < left.len() ==> white_space(#[trigger] left[i])) && (forall|i: int|
                0 <= i < right.len() ==> white_space(#[trigger] right[i])),
{
    let t = trim_start(s);
    let left = lemma_start_taken(s);
    let right = lemma_end_taken(t);
    assert(s =~= left + trim(s) + right);
}

proof fn lemma_start_taken(s: Seq<char>) -> (left: Seq<char>)
    ensures
        s == left + trim_start(s),
        forall|i: int| 0 <= i < left.len() ==> white_space(#[trigger] left[i]),
    decreases s.len(),
{
    if s.len() > 0 && white_space(s[0]) {
        let more = lemma_start_taken(s.skip(1));
        let left = seq![s[0]] + more;
        assert(s =~= seq![s[0]] + s.skip(1));
        assert(seq![s[0]] + (more + trim_start(s)) =~= left + trim_start(s));
        left
    } else {
        assert(s =~= Seq::<char>::empty() + trim_start(s));
        Seq::empty()
    }
}

proof fn lemma_end_taken(s: Seq<char>) -> (right: Seq<char>)
    ensures
        s == trim_end(s) + right,
        forall|i: int| 0 <= i < right.len() ==> white_space(#[trigger] right[i]),
    decreases s.len(),
{
    if s.len() > 0 && white_space(s.last()) {
        let more = lemma_end_taken(s.drop_last());
        let right = more.push(s.last());
        assert(s =~= s.drop_last().push(s.last()));
        assert((trim_end(s) + more).push(s.last()) =~= trim_end(s) + right);
        right
    } else {
        assert(s =~= trim_end(s) + Seq::<char>::empty());
        Seq::empty()
    }
}

proof fn lemma_trim_start(s: Seq<char>)
    ensures
        trim_start(s).len() > 0 ==> !white_space(trim_start(s)[0]),
        forall|c: char| trim_start(s).contains(c) ==> s.contains(c),
    decreases s.len(),
{
    if s.len() > 0 && white_space(s[0]) {
        lemma_trim_start(s.skip(1));
        assert forall|c: char| trim_start(s).contains(c) implies s.contains(c) by {
            assert(s.skip(1).contains(c));
            let n = choose|n: int| 0 <= n < s.skip(1).len() && s.skip(1)[n] == c;
            assert(s[n + 1] == c);
        }
    }
}

proof fn lemma_trim_end(s: Seq<char>)
    ensures
        trim_end(s).len() > 0 ==> trim_end(s)[0] == s[0] && !white_space(trim_end(s).last()),
        forall|c: char| trim_end(s).contains(c) ==> s.contains(c),
    decreases s.len(),
{
    if s.len() > 0 && white_space(s.last()) {
        lemma_trim_end(s.drop_last());
        assert forall|c: char| trim_end(s).contains(c) implies s.contains(c) by {
            assert(s.drop_last().contains(c));
            let n = choose|n: int| 0 <= n < s.drop_last().len() && s.drop_last()[n] == c;
            assert(s[n] == c);
        }
    }
}

/// The text without the white space at its start and at its end.
pub fn trimmed(text: &str) -> (r: String)
    ensures
        r@ == trim(text@),
{
    let chars = chars_of(text);
    let n: usize = chars.len();
    let mut start: usize = 0;
    assert(text@.skip(0) =~= text@);
    while start < n && is_white_space(chars[start])
        invariant
            chars@ == text@,
            n == text@.len(),
            start <= n,
            trim_start(text@) == trim_start(text@.skip(start as int)),
        decreases n - start,
    {
        assert(text@.skip(start as int).skip(1) =~= text@.skip(start + 1));
        start += 1;
    }
    let ghost rest = text@.skip(start as int);
    assert(trim_start(text@) == rest);
    let mut end: usize = n;
    assert(rest =~= text@.subrange(start as int, end as int));
    while end > start && is_white_space(chars[end - 1])
        invariant
            chars@ == text@,
            n == text@.len(),
            start <= end <= n,
            trim_end(rest) == trim_end(text@.subrange(start as int, end as int)),
        decreases end,
    {
        assert(text@.subrange(start as int, end as int).drop_last() =~= text@.subrange(
            start as int,
            end - 1,
        ));
        end -= 1;
    }
    text.substring_char(start, end).to_owned()
}

// ---------------------------------------------------------------------------------------------
// Lists in a text.
// ---------------------------------------------------------------------------------------------

/// The pieces of `s` between the occurrences of `sep`: always one more than there are of those.
pub open spec fn split(s: Seq<char>, sep: char) -> Seq<Seq<char>>
    decreases s.len(),
{
    if s.len() == 0 {
        seq![s]
    } else {
        let front = split(s.drop_last(), sep);
        if s.last() == sep {
            front.push(Seq::empty())
        } else {
            front.update(front.len() - 1, front.last().push(s.last()))
        }
    }
}

/// There is always a piece, and no piece holds the separator.
pub(crate) proof fn lemma_split_pieces(s: Seq<char>, sep: char)
    ensures
        split(s, sep).len() > 0,
        forall|i: int| 0 <= i < split(s, sep).len() ==> !(#[trigger] split(s, sep)[i]).contains(sep),
    decreases s.len(),
{
    if s.len() > 0 {
        lemma_split_pieces(s.drop_last(), sep);
        let front = split(s.drop_last(), sep);
        let pieces = split(s, sep);
        assert forall|i: int| 0 <= i < pieces.len() implies !(#[trigger] pieces[i]).contains(
            sep,
        ) by {
            if i < front.len() {
                assert(!front[i].contains(sep));
            }
            if pieces[i].contains(sep) {
                let n = choose|n: int| 0 <= n < pieces[i].len() && pieces[i][n] == sep;
                assert(front[i][n] == sep);
            }
        }
    }
}

/// More text without the separator only makes the last piece longer.
proof fn lemma_split_longer(s: Seq<char>, more: Seq<char>, sep: char)
    requires
        !more.contains(sep),
    ensures
        split(s + more, sep) == split(s, sep).update(
            split(s, sep).len() - 1,
            split(s, sep).last() + more,
        ),
    decreases more.len(),
{
    let pieces = split(s, sep);
    lemma_split_pieces(s, sep);
    if more.len() == 0 {
        assert(s + more =~= s);
        assert(pieces.last() + more =~= pieces.last());
        assert(pieces.update(pieces.len() - 1, pieces.last() + more) =~= pieces);
    } else {
        let less = more.drop_last();
        assert(more.contains(more.last()));
        assert forall|c: char| less.contains(c) implies more.contains(c) by {
            let n = choose|n: int| 0 <= n < less.len() && less[n] == c;
            assert(more[n] == c);
        }
        lemma_split_longer(s, less, sep);
        assert((s + more).drop_last() =~= s + less);
        assert((pieces.last() + less).push(more.last()) =~= pieces.last() + more);
        assert(split(s + more, sep) =~= pieces.update(pieces.len() - 1, pieces.last() + more));
    }
}

/// A separator parts the pieces of what is before it from the pieces of what is after it.
pub(crate) proof fn lemma_split_parts(a: Seq<char>, b: Seq<char>, sep: char)
    ensures
        split(a + seq![sep] + b, sep) == split(a, sep) + split(b, sep),
    decreases b.len(),
{
    let whole = a + seq![sep] + b;
    if b.len() == 0 {
        assert(whole.drop_last() =~= a);
        assert(whole.last() == sep);
        assert(b =~= Seq::empty());
        assert(split(whole, sep) =~= split(a, sep) + split(b, sep));
    } else {
        lemma_split_parts(a, b.drop_last(), sep);
        lemma_split_pieces(b.drop_last(), sep);
        assert(whole.drop_last() =~= a + seq![sep] + b.drop_last());
        assert(whole.last() == b.last());
        assert(split(whole, sep) =~= split(a, sep) + split(b, sep));
    }
}

/// The pieces of a text between the occurrences of a character.
pub fn split_on(text: &str, sep: char) -> (r: Vec<String>)
    ensures
        r.deep_view() == split(text@, sep),
{
    let mut out: Vec<String> = Vec::new();
    let mut piece = String::new();
    assert(text@.take(0) =~= Seq::<char>::empty());
    assert(out.deep_view().push(piece@) =~= seq![Seq::<char>::empty()]);
    for c in it: text.chars()
        invariant
            it.seq() == text@,
            out.deep_view().push(piece@) == split(text@.take(it.index()), sep),
    {
        let ghost done = text@.take(it.index());
        let ghost before = out.deep_view();
        let ghost held = piece@;
        assert(text@.take(it.index() + 1).drop_last() =~= done);
        if c == sep {
            out.push(piece);
            piece = String::new();
            assert(out.deep_view() =~= before.push(held));
            assert(out.deep_view().push(piece@) =~= split(done, sep).push(Seq::empty()));
        } else {
            piece.push(c);
            assert(out.deep_view().push(piece@) =~= split(done, sep).update(
                split(done, sep).len() - 1,
                split(done, sep).last().push(c),
            ));
        }
    }
    assert(text@.take(text@.len() as int) =~= text@);
    let ghost before = out.deep_view();
    let ghost held = piece@;
    out.push(piece);
    assert(out.deep_view() =~= before.push(held));
    out
}

/// The texts of `list` with `sep` between each two.
pub open spec fn join(list: Seq<Seq<char>>, sep: Seq<char>) -> Seq<char>
    decreases list.len(),
{
    if list.len() == 0 {
        Seq::empty()
    } else if list.len() == 1 {
        list[0]
    } else {
        join(list.drop_last(), sep) + sep + list.last()
    }
}

/// The texts of a list with a separator between each two.
pub fn joined(list: &Vec<String>, sep: &str) -> (r: String)
    ensures
        r@ == join(list.deep_view(), sep@),
{
    let ghost all = list.deep_view();
    let mut out = String::new();
    let mut i: usize = 0;
    while i < list.len()
        invariant
            i <= list.len(),
            all == list.deep_view(),
            out@ =~= join(all.take(i as int), sep@),
        decreases list.len() - i,
    {
        if i > 0 {
            out.append(sep);
        }
        out.append(list[i].as_str());
        assert(all.take(i + 1).drop_last() =~= all.take(i as int));
        assert(all.take(i + 1).last() == list[i as int]@);
        i += 1;
    }
    assert(all.take(all.len() as int) =~= all);
    out
}

/// Splitting undoes joining, if there is a text in the list and none of them holds the separator.
pub proof fn law_splitting_undoes_joining(list: Seq<Seq<char>>, sep: char)
    requires
        list.len() > 0,
        forall|i: int| 0 <= i < list.len() ==> !(#[trigger] list[i]).contains(sep),
    ensures
        split(join(list, seq![sep]), sep) == list,
    decreases list.len(),
{
    let none = Seq::<char>::empty();
    let last = list.last();
    if list.len() == 1 {
        lemma_split_longer(none, last, sep);
        assert(none + last =~= last);
        assert(split(last, sep) =~= list);
    } else {
        let front = list.drop_last();
        let start = join(front, seq![sep]);
        assert forall|i: int| 0 <= i < front.len() implies !(#[trigger] front[i]).contains(sep) by {
            assert(front[i] == list[i]);
        }
        law_splitting_undoes_joining(front, sep);
        let parted = start + seq![sep];
        assert(parted.drop_last() =~= start);
        assert(split(parted, sep) == front.push(none));
        lemma_split_longer(parted, last, sep);
        assert(none + last =~= last);
        assert(split(parted + last, sep) =~= list);
    }
}

/// Joining undoes splitting.
pub proof fn law_joining_undoes_splitting(s: Seq<char>, sep: char)
    ensures
        join(split(s, sep), seq![sep]) == s,
        forall|i: int| 0 <= i < split(s, sep).len() ==> !(#[trigger] split(s, sep)[i]).contains(sep),
    decreases s.len(),
{
    lemma_split_pieces(s, sep);
    if s.len() == 0 {
        assert(join(split(s, sep), seq![sep]) =~= s);
    } else {
        let front = split(s.drop_last(), sep);
        let pieces = split(s, sep);
        law_joining_undoes_splitting(s.drop_last(), sep);
        lemma_split_pieces(s.drop_last(), sep);
        if s.last() == sep {
            assert(pieces.drop_last() =~= front);
            assert(join(pieces, seq![sep]) =~= s);
        } else {
            assert(pieces.drop_last() =~= front.drop_last());
            assert(s =~= s.drop_last().push(s.last()));
            if front.len() > 1 {
                let start = join(front.drop_last(), seq![sep]) + seq![sep];
                assert(start + front.last().push(s.last()) =~= (start + front.last()).push(
                    s.last(),
                ));
            }
        }
    }
}

/// A joined list is its first text if that is all, and otherwise the joined rest comes after a
/// separator.
pub proof fn law_joining_puts_the_separator_between(
    a: Seq<Seq<char>>,
    b: Seq<Seq<char>>,
    sep: Seq<char>,
)
    requires
        a.len() > 0,
        b.len() > 0,
    ensures
        join(a + b, sep) == join(a, sep) + sep + join(b, sep),
        a.len() == 1 ==> join(a, sep) == a[0],
        join(Seq::empty(), sep) == Seq::<char>::empty(),
    decreases b.len(),
{
    let c = a + b;
    assert(c.last() == b.last());
    if b.len() == 1 {
        assert(c.drop_last() =~= a);
    } else {
        law_joining_puts_the_separator_between(a, b.drop_last(), sep);
        assert(c.drop_last() =~= a + b.drop_last());
        assert(join(c, sep) =~= join(a, sep) + sep + join(b, sep));
    }
}

// ---------------------------------------------------------------------------------------------
// Numbers.
// ---------------------------------------------------------------------------------------------

/// The digit for a number below ten.
pub open spec fn digit(d: nat) -> char {
    (0x30 + d) as char
}

/// A number in decimal notation, without leading zeros.
pub open spec fn decimal(n: nat) -> Seq<char>
    decreases n,
{
    if n < 10 {
        seq![digit(n)]
    } else {
        decimal(n / 10).push(digit(n % 10))
    }
}

/// A number in decimal notation, after a minus sign if it is negative.
pub open spec fn signed_decimal(n: int) -> Seq<char> {
    if n < 0 {
        seq!['-'] + decimal((-n) as nat)
    } else {
        decimal(n as nat)
    }
}

fn decimal_text(n: u32) -> (r: String)
    ensures
        r@ == decimal(n as nat),
    decreases n,
{
    let last: u8 = (n % 10) as u8;
    let c: char = (0x30u8 + last) as char;
    let mut out = if n < 10 {
        String::new()
    } else {
        decimal_text(n / 10)
    };
    out.push(c);
    assert(n < 10 ==> out@ =~= seq![digit(n as nat)]);
    out
}

/// A number in decimal notation, as it reads in `{}` notation.
pub fn number(n: i32) -> (r: String)
    ensures
        r@ == signed_decimal(n as int),
{
    if n < 0 {
        let size: u32 = (0 - (n as i64)) as u32;
        let digits = decimal_text(size);
        let mut out = String::new();
        out.push('-');
        out.append(digits.as_str());
        assert(out@ =~= seq!['-'] + decimal(size as nat));
        out
    } else {
        decimal_text(n as u32)
    }
}

/// An optional number as it reads in `{:?}` notation.
pub open spec fn optional_number(n: Option<i32>) -> Seq<char> {
    match n {
        Some(k) => "Some("@ + signed_decimal(k as int) + ")"@,
        None => "None"@,
    }
}

/// An optional number as it reads in `{:?}` notation.
pub fn debug_number(n: Option<i32>) -> (r: String)
    ensures
        r@ == optional_number(n),
{
    match n {
        Some(k) => {
            let digits = number(k);
            cat3("Some(", digits.as_str(), ")")
        },
        None => "None".to_owned(),
    }
}

/// The number that a text of decimal digits stands for.
pub open spec fn digits_value(digits: Seq<char>) -> int
    decreases digits.len(),
{
    if digits.len() == 0 {
        0
    } else {
        10 * digits_value(digits.drop_last()) + (digits.last() as int - '0' as int)
    }
}

/// Decimal notation holds digits only, stands for the number that it was made from, and has no
/// leading zero.
pub proof fn law_decimals_stand_for_their_number(n: nat)
    ensures
        decimal(n).len() > 0,
        forall|i: int| 0 <= i < decimal(n).len() ==> '0' <= #[trigger] decimal(n)[i] <= '9',
        digits_value(decimal(n)) == n,
        n > 0 ==> decimal(n)[0] != '0',
    decreases n,
{
    reveal_with_fuel(digits_value, 2);
    if n < 10 {
        assert(decimal(n).drop_last() =~= Seq::<char>::empty());
    } else {
        law_decimals_stand_for_their_number(n / 10);
        assert(decimal(n).drop_last() =~= decimal(n / 10));
    }
}

/// A negative number is written as a minus sign and its size, any other without a sign.
pub proof fn law_signs_are_written(n: int)
    ensures
        n >= 0 ==> digits_value(signed_decimal(n)) == n && signed_decimal(n)[0] != '-',
        n < 0 ==> signed_decimal(n)[0] == '-' && digits_value(signed_decimal(n).skip(1)) == -n,
{
    if n < 0 {
        law_decimals_stand_for_their_number((-n) as nat);
        assert(signed_decimal(n).skip(1) =~= decimal((-n) as nat));
    } else {
        law_decimals_stand_for_their_number(n as nat);
    }
}

/// An optional number reads as `None`, or as the number in `Some(..)`.
pub proof fn law_optional_numbers_read_as_rust_writes_them(n: Option<i32>)
    ensures
        n is None ==> optional_number(n) == "None"@,
        n matches Some(k) ==> exists|digits: Seq<char>| #[trigger]
            ("Some("@ + digits + ")"@) == optional_number(n) && (k >= 0 ==> digits_value(digits)
                == k) && (k < 0 ==> digits[0] == '-' && digits_value(digits.skip(1)) == -k),
{
    if let Some(k) = n {
        law_signs_are_written(k as int);
        let digits = signed_decimal(k as int);
        assert("Some("@ + digits + ")"@ == optional_number(n));
    }
}

} // verus!
