//! What the sources of templates may hold, so that each of them can be read and rendered.
//!
//! A source is text with variables, conditions and loops over lists. Such a template reads nothing but the
//! values that it is rendered with, and it ends.
use vstd::prelude::*;
use vstd::string::StrSliceExecFns;
use crate::text::is_digit;

verus! {

/// How many conditions and loops may stand inside each other.
pub const MOST_NESTED: usize = 16;

/// How many words a condition may have.
pub const MOST_WORDS: usize = 32;

/// What a character of a source stands in.
#[derive(Clone, Copy, PartialEq, Eq, Structural)]
pub enum Place {
    /// Text, which is taken as it is.
    Text,
    /// Text, behind a brace that may open something.
    Brace,
    /// `{{ .. }}`
    Variable,
    /// `{% .. %}`
    Tag,
    /// `{# .. #}`
    Comment,
}

/// What a brace and the character behind it open.
pub open spec fn opened_by(c: char) -> Place {
    if c == '{' {
        Place::Variable
    } else if c == '%' {
        Place::Tag
    } else if c == '#' {
        Place::Comment
    } else {
        Place::Text
    }
}

/// The character that, with a brace behind it, ends what stands in a place.
pub open spec fn closes(place: Place) -> char {
    match place {
        Place::Tag => '%',
        Place::Comment => '#',
        _ => '}',
    }
}

/// Whether a character parts words.
pub open spec fn is_space(c: char) -> bool {
    c == ' ' || c == '\t' || c == '\r' || c == '\n'
}

/// The words of a text: what stands between the spaces.
pub open spec fn words(text: Seq<char>) -> Seq<Seq<char>>
    decreases text.len(),
{
    if text.len() == 0 {
        Seq::empty()
    } else {
        let before = words(text.drop_last());
        let c = text.last();
        if is_space(c) {
            before
        } else if text.len() == 1 || is_space(text[text.len() - 2]) {
            before.push(seq![c])
        } else {
            before.drop_last().push(before.last().push(c))
        }
    }
}

/// What stands inside a variable or a tag, without the dashes at its ends that take the spaces around it
/// away.
pub open spec fn without_dashes(inside: Seq<char>) -> Seq<char> {
    let rest = if inside.len() > 0 && inside[0] == '-' {
        inside.skip(1)
    } else {
        inside
    };
    if rest.len() > 0 && rest.last() == '-' {
        rest.drop_last()
    } else {
        rest
    }
}

/// Whether a character can begin a name.
pub open spec fn begins_name(c: char) -> bool {
    'a' <= c <= 'z' || 'A' <= c <= 'Z' || c == '_'
}

/// Whether a word is a name, or a path of names with dots between them. The word `is`, and what begins
/// with it, would begin a test.
pub open spec fn is_path(word: Seq<char>) -> bool {
    &&& word.len() > 0
    &&& begins_name(word[0])
    &&& !(word.len() > 1 && word[0] == 'i' && word[1] == 's')
    &&& forall|i: int|
        0 <= i < word.len() ==> begins_name(#[trigger] word[i]) || is_digit(word[i]) || word[i] == '.'
}

/// Whether a word is a whole number.
pub open spec fn is_count(word: Seq<char>) -> bool {
    &&& word.len() > 0
    &&& forall|i: int| 0 <= i < word.len() ==> is_digit(#[trigger] word[i])
}

/// Whether a word is a text in quotes.
pub open spec fn is_quoted(word: Seq<char>) -> bool {
    &&& word.len() > 1
    &&& forall|i: int|
        0 <= i < word.len() ==> ((#[trigger] word[i]) == '"' <==> i == 0 || i == word.len() - 1)
}

/// Whether a word compares what stands on its two sides.
pub open spec fn is_comparison(word: Seq<char>) -> bool {
    ||| word == "=="@
    ||| word == "!="@
    ||| word == "<"@
    ||| word == "<="@
    ||| word == ">"@
    ||| word == ">="@
}

/// Whether a word may stand in a condition.
pub open spec fn in_condition(word: Seq<char>) -> bool {
    is_path(word) || is_count(word) || is_quoted(word) || is_comparison(word)
}

/// Whether a path ends in a name.
pub open spec fn ends_in(path: Seq<char>, name: Seq<char>) -> bool {
    ||| path == name
    ||| {
        let start = path.len() - name.len();
        start > 0 && path[start - 1] == '.' && path.skip(start) == name
    }
}

/// Whether a path leads to one of the lists that templates are rendered with.
pub open spec fn is_list(path: Seq<char>) -> bool {
    ||| ends_in(path, "listeners"@)
    ||| ends_in(path, "virtual_hosts"@)
    ||| ends_in(path, "route_configs"@)
    ||| ends_in(path, "clusters"@)
    ||| ends_in(path, "endpoints"@)
    ||| ends_in(path, "secrets"@)
}

/// Whether the words of a tag begin a condition.
pub open spec fn is_condition(all: Seq<Seq<char>>) -> bool {
    &&& 1 < all.len() <= MOST_WORDS
    &&& all[0] == "if"@ || all[0] == "elif"@
    &&& forall|i: int| 1 <= i < all.len() ==> in_condition(#[trigger] all[i])
}

/// Whether the words of a tag begin a loop over a list.
pub open spec fn is_loop(all: Seq<Seq<char>>) -> bool {
    &&& all.len() == 4
    &&& all[0] == "for"@
    &&& is_path(all[1])
    &&& all[2] == "in"@
    &&& is_path(all[3])
    &&& is_list(all[3])
}

/// Whether the words of a tag begin something that another tag ends.
pub open spec fn nests(all: Seq<Seq<char>>) -> bool {
    is_loop(all) || is_condition(all) && all[0] == "if"@
}

/// Whether the words of a tag end what another tag began.
pub open spec fn unnests(all: Seq<Seq<char>>) -> bool {
    all.len() == 1 && (all[0] == "endif"@ || all[0] == "endfor"@)
}

/// Whether the words of a tag are those of a part of a condition or a loop.
pub open spec fn is_part(all: Seq<Seq<char>>) -> bool {
    is_condition(all) || is_loop(all) || unnests(all) || all.len() == 1 && all[0] == "else"@
}

/// How far a source was read: what the next character stands in, what stands before it there, how many
/// conditions and loops it is in, and whether all so far may stand in a template.
#[verifier::ext_equal]
pub struct Reading {
    pub place: Place,
    pub inside: Seq<char>,
    pub depth: nat,
    pub fits: bool,
}

impl Reading {
    /// Before the first character.
    pub open spec fn start() -> Reading {
        Reading { place: Place::Text, inside: Seq::empty(), depth: 0, fits: true }
    }

    /// Behind the end of what stands in a place.
    pub open spec fn closed(self) -> Reading {
        let all = words(without_dashes(self.inside.drop_last()));
        let next = Reading { place: Place::Text, inside: Seq::empty(), ..self };
        match self.place {
            Place::Variable => Reading {
                fits: self.fits && all.len() == 1 && is_path(all[0]),
                ..next
            },
            Place::Tag => if nests(all) {
                Reading {
                    depth: if self.depth < MOST_NESTED {
                        self.depth + 1
                    } else {
                        self.depth
                    },
                    fits: self.fits && self.depth < MOST_NESTED,
                    ..next
                }
            } else if unnests(all) {
                Reading {
                    depth: if self.depth > 0 {
                        (self.depth - 1) as nat
                    } else {
                        0
                    },
                    fits: self.fits && self.depth > 0,
                    ..next
                }
            } else {
                Reading { fits: self.fits && is_part(all), ..next }
            },
            _ => next,
        }
    }

    /// Behind one more character.
    pub open spec fn next(self, c: char) -> Reading {
        match self.place {
            Place::Text => if c == '{' {
                Reading { place: Place::Brace, ..self }
            } else {
                self
            },
            Place::Brace => Reading { place: opened_by(c), ..self },
            place => if c == '}' && self.inside.len() > 0 && self.inside.last() == closes(place) {
                self.closed()
            } else {
                Reading { inside: self.inside.push(c), ..self }
            },
        }
    }
}

/// How far a source was read when all of it was.
pub open spec fn read(source: Seq<char>) -> Reading
    decreases source.len(),
{
    if source.len() == 0 {
        Reading::start()
    } else {
        read(source.drop_last()).next(source.last())
    }
}

/// Whether a source is one that a template can be made of.
pub open spec fn fits(source: Seq<char>) -> bool {
    read(source).fits && (read(source).place == Place::Text || read(source).place == Place::Brace)
}

/// Whether each template of a set has a source that can be read and rendered.
pub open spec fn renders_safely(templates: Map<Seq<char>, Seq<char>>) -> bool {
    forall|name: Seq<char>| #[trigger] templates.contains_key(name) ==> fits(templates[name])
}

/// The texts of words.
pub open spec fn views(list: Seq<Vec<char>>) -> Seq<Seq<char>> {
    Seq::new(list.len(), |i: int| list[i]@)
}

fn space(c: char) -> (r: bool)
    ensures
        r == is_space(c),
{
    c == ' ' || c == '\t' || c == '\r' || c == '\n'
}

fn split_words(text: &[char], from: usize, to: usize) -> (r: Vec<Vec<char>>)
    requires
        from <= to <= text@.len(),
    ensures
        views(r@) == words(text@.subrange(from as int, to as int)),
{
    let ghost all = text@.subrange(from as int, to as int);
    let mut out: Vec<Vec<char>> = Vec::new();
    let mut word: Vec<char> = Vec::new();
    let mut i: usize = from;
    assert(all.take(0) =~= Seq::<char>::empty());
    assert(views(out@) =~= Seq::<Seq<char>>::empty());
    while i < to
        invariant
            from <= i <= to <= text@.len(),
            all == text@.subrange(from as int, to as int),
            word@.len() == 0 ==> views(out@) == words(all.take(i - from)),
            word@.len() > 0 ==> views(out@).push(word@) == words(all.take(i - from)),
            word@.len() > 0 <==> i > from && !is_space(all[i - from - 1]),
        decreases to - i,
    {
        let c = text[i];
        let ghost n = i - from;
        let ghost had = out@;
        assert(all.take(n + 1).drop_last() =~= all.take(n));
        assert(all[n] == c);
        if space(c) {
            if word.len() > 0 {
                let ghost done = word@;
                out.push(word);
                assert(views(out@) =~= views(had).push(done));
                word = Vec::new();
            }
        } else {
            let ghost begun = word@;
            word.push(c);
            proof {
                if begun.len() > 0 {
                    assert(views(had).push(begun).drop_last() =~= views(had));
                    assert(views(had).push(word@) =~= words(all.take(n + 1)));
                } else {
                    assert(word@ =~= seq![c]);
                    assert(views(had).push(word@) =~= words(all.take(n + 1)));
                }
            }
        }
        i = i + 1;
    }
    assert(all.take(i - from) =~= all);
    if word.len() > 0 {
        let ghost had = out@;
        let ghost done = word@;
        out.push(word);
        assert(views(out@) =~= views(had).push(done));
    }
    out
}

/// The words of what stands inside a variable or a tag that ends.
fn words_inside(inside: &Vec<char>) -> (r: Vec<Vec<char>>)
    requires
        inside@.len() > 0,
    ensures
        views(r@) == words(without_dashes(inside@.drop_last())),
{
    let ghost held = inside@.drop_last();
    let end: usize = inside.len() - 1;
    let from: usize = if end > 0 && inside[0] == '-' {
        1
    } else {
        0
    };
    let to: usize = if end > from && inside[end - 1] == '-' {
        end - 1
    } else {
        end
    };
    assert(without_dashes(held) =~= inside@.subrange(from as int, to as int)) by {
        if from == 1 {
            assert(held.skip(1).len() == end - 1);
            if end > 1 {
                assert(held.skip(1).last() == inside@[end - 1]);
            }
        } else if end > 0 {
            assert(held.last() == inside@[end - 1]);
        }
    }
    split_words(inside.as_slice(), from, to)
}

fn word_is(word: &Vec<char>, text: &str) -> (r: bool)
    ensures
        r == (word@ == text@),
{
    let n: usize = text.unicode_len();
    if word.len() != n {
        return false;
    }
    let mut i: usize = 0;
    while i < n
        invariant
            i <= n,
            n == text@.len(),
            n == word@.len(),
            forall|j: int| 0 <= j < i ==> word@[j] == text@[j],
        decreases n - i,
    {
        if word[i] != text.get_char(i) {
            return false;
        }
        i = i + 1;
    }
    assert(word@ =~= text@);
    true
}

fn starts_name(c: char) -> (r: bool)
    ensures
        r == begins_name(c),
{
    ('a' <= c && c <= 'z') || ('A' <= c && c <= 'Z') || c == '_'
}

fn check_path(word: &Vec<char>) -> (r: bool)
    ensures
        r == is_path(word@),
{
    if word.len() == 0 || !starts_name(word[0]) {
        return false;
    }
    if word.len() > 1 && word[0] == 'i' && word[1] == 's' {
        return false;
    }
    let mut i: usize = 0;
    while i < word.len()
        invariant
            i <= word.len(),
            forall|j: int|
                0 <= j < i ==> begins_name(#[trigger] word@[j]) || is_digit(word@[j]) || word@[j] == '.',
        decreases word.len() - i,
    {
        let c = word[i];
        if !(starts_name(c) || ('0' <= c && c <= '9') || c == '.') {
            assert(!(begins_name(word@[i as int]) || is_digit(word@[i as int]) || word@[i as int] == '.'));
            return false;
        }
        i = i + 1;
    }
    true
}

fn check_count(word: &Vec<char>) -> (r: bool)
    ensures
        r == is_count(word@),
{
    let mut i: usize = 0;
    while i < word.len()
        invariant
            i <= word.len(),
            forall|j: int| 0 <= j < i ==> is_digit(#[trigger] word@[j]),
        decreases word.len() - i,
    {
        let c = word[i];
        if !('0' <= c && c <= '9') {
            assert(!is_digit(word@[i as int]));
            return false;
        }
        i = i + 1;
    }
    word.len() > 0
}

fn check_quoted(word: &Vec<char>) -> (r: bool)
    ensures
        r == is_quoted(word@),
{
    let n: usize = word.len();
    let mut i: usize = 0;
    while i < n
        invariant
            i <= n,
            n == word.len(),
            forall|j: int|
                0 <= j < i ==> ((#[trigger] word@[j]) == '"' <==> j == 0 || j == word@.len() - 1),
        decreases n - i,
    {
        let quote = word[i] == '"';
        let end = i == 0 || i == n - 1;
        if quote != end {
            assert(!(word@[i as int] == '"' <==> i == 0 || i == word@.len() - 1));
            return false;
        }
        i = i + 1;
    }
    n > 1
}

fn check_condition_word(word: &Vec<char>) -> (r: bool)
    ensures
        r == in_condition(word@),
{
    check_path(word) || check_count(word) || check_quoted(word) || word_is(word, "==") || word_is(
        word,
        "!=",
    ) || word_is(word, "<") || word_is(word, "<=") || word_is(word, ">") || word_is(word, ">=")
}

fn check_ends_in(path: &Vec<char>, name: &str) -> (r: bool)
    ensures
        r == ends_in(path@, name@),
{
    let n: usize = name.unicode_len();
    if path.len() <= n {
        return word_is(path, name);
    }
    let start: usize = path.len() - n;
    if path[start - 1] != '.' {
        return false;
    }
    let mut i: usize = 0;
    while i < n
        invariant
            i <= n,
            n == name@.len(),
            start + n == path.len(),
            forall|j: int| 0 <= j < i ==> path@[start + j] == name@[j],
        decreases n - i,
    {
        if path[start + i] != name.get_char(i) {
            assert(path@.skip(start as int)[i as int] != name@[i as int]);
            return false;
        }
        i = i + 1;
    }
    assert(path@.skip(start as int) =~= name@);
    true
}

fn check_list(path: &Vec<char>) -> (r: bool)
    ensures
        r == is_list(path@),
{
    check_ends_in(path, "listeners") || check_ends_in(path, "virtual_hosts") || check_ends_in(
        path,
        "route_configs",
    ) || check_ends_in(path, "clusters") || check_ends_in(path, "endpoints") || check_ends_in(
        path,
        "secrets",
    )
}

fn check_condition(all: &Vec<Vec<char>>) -> (r: bool)
    ensures
        r == is_condition(views(all@)),
{
    let ghost list = views(all@);
    if all.len() < 2 || all.len() > MOST_WORDS {
        return false;
    }
    if !word_is(&all[0], "if") && !word_is(&all[0], "elif") {
        assert(list[0] == all@[0]@);
        return false;
    }
    let mut i: usize = 1;
    while i < all.len()
        invariant
            1 <= i <= all.len(),
            list == views(all@),
            forall|j: int| 1 <= j < i ==> in_condition(#[trigger] list[j]),
        decreases all.len() - i,
    {
        assert(list[i as int] == all@[i as int]@);
        if !check_condition_word(&all[i]) {
            assert(!in_condition(list[i as int]));
            return false;
        }
        i = i + 1;
    }
    assert(list[0] == all@[0]@);
    true
}

fn check_loop(all: &Vec<Vec<char>>) -> (r: bool)
    ensures
        r == is_loop(views(all@)),
{
    if all.len() != 4 {
        return false;
    }
    let ghost list = views(all@);
    assert(list[0] == all@[0]@ && list[1] == all@[1]@ && list[2] == all@[2]@ && list[3] == all@[3]@);
    word_is(&all[0], "for") && check_path(&all[1]) && word_is(&all[2], "in") && check_path(&all[3])
        && check_list(&all[3])
}

/// Whether a source is one that a template can be made of.
pub fn check_source(source: &str) -> (r: bool)
    ensures
        r == fits(source@),
{
    let mut place = Place::Text;
    let mut inside: Vec<char> = Vec::new();
    let mut depth: usize = 0;
    let mut fit = true;
    assert(source@.take(0) =~= Seq::<char>::empty());
    for c in iter: source.chars()
        invariant
            iter.seq() == source@,
            depth <= MOST_NESTED,
            read(source@.take(iter.index())) == (Reading {
                place,
                inside: inside@,
                depth: depth as nat,
                fits: fit,
            }),
    {
        let ghost i = iter.index();
        assert(source@.take(i + 1).drop_last() =~= source@.take(i));
        assert(source@.take(i + 1).last() == c);
        match place {
            Place::Text => {
                if c == '{' {
                    place = Place::Brace;
                }
            },
            Place::Brace => {
                place = if c == '{' {
                    Place::Variable
                } else if c == '%' {
                    Place::Tag
                } else if c == '#' {
                    Place::Comment
                } else {
                    Place::Text
                };
            },
            _ => {
                let mark = match place {
                    Place::Tag => '%',
                    Place::Comment => '#',
                    _ => '}',
                };
                if c == '}' && inside.len() > 0 && inside[inside.len() - 1] == mark {
                    let all = words_inside(&inside);
                    let ghost list = views(all@);
                    match place {
                        Place::Variable => {
                            assert(all@.len() > 0 ==> list[0] == all@[0]@);
                            fit = fit && all.len() == 1 && check_path(&all[0]);
                        },
                        Place::Tag => {
                            assert(all@.len() > 0 ==> list[0] == all@[0]@);
                            let condition = check_condition(&all);
                            let loops = check_loop(&all);
                            if loops || condition && word_is(&all[0], "if") {
                                fit = fit && depth < MOST_NESTED;
                                if depth < MOST_NESTED {
                                    depth = depth + 1;
                                }
                            } else if all.len() == 1 && (word_is(&all[0], "endif") || word_is(
                                &all[0],
                                "endfor",
                            )) {
                                fit = fit && depth > 0;
                                if depth > 0 {
                                    depth = depth - 1;
                                }
                            } else {
                                fit = fit && (condition || all.len() == 1 && word_is(&all[0], "else"));
                            }
                        },
                        _ => {},
                    }
                    place = Place::Text;
                    inside = Vec::new();
                } else {
                    inside.push(c);
                }
            },
        }
    }
    assert(source@.take(source@.len() as int) =~= source@);
    fit && matches!(place, Place::Text | Place::Brace)
}

/// Where nothing was opened, nothing stands inside.
proof fn nothing_inside(source: Seq<char>)
    ensures
        read(source).place == Place::Text || read(source).place == Place::Brace ==> read(
            source,
        ).inside.len() == 0,
    decreases source.len(),
{
    if source.len() > 0 {
        nothing_inside(source.drop_last());
    }
}

/// Before the first character, a source is in no condition and no loop. A source that holds nothing fits.
pub proof fn law_empty_source()
    ensures
        fits(Seq::<char>::empty()),
        read(Seq::<char>::empty()).depth == 0,
        read(Seq::<char>::empty()).place == Place::Text,
{
}

/// Text without braces that open something is passed over.
pub proof fn law_text_is_passed_over(before: Seq<char>, text: Seq<char>)
    requires
        read(before).place == Place::Text,
        !text.contains('{'),
    ensures
        read(before + text) == read(before),
        fits(before) ==> fits(before + text),
    decreases text.len(),
{
    if text.len() == 0 {
        assert(before + text =~= before);
    } else {
        let shorter = text.drop_last();
        assert forall|i: int| 0 <= i < shorter.len() implies shorter[i] != '{' by {
            assert(text.contains(text[i]));
        }
        law_text_is_passed_over(before, shorter);
        assert((before + text).drop_last() =~= before + shorter);
        assert(text.contains(text.last()));
    }
}

/// A text ends a word where it does not end in a space.
proof fn words_end(text: Seq<char>)
    requires
        text.len() > 0,
        !is_space(text.last()),
    ensures
        words(text).len() > 0,
{
}

/// A space parts the words before it from those behind it.
pub proof fn law_space_parts_words(a: Seq<char>, space: char, b: Seq<char>)
    requires
        space == ' ' || space == '\t' || space == '\r' || space == '\n',
    ensures
        words(a + seq![space] + b) == words(a) + words(b),
    decreases b.len(),
{
    let text = a + seq![space] + b;
    if b.len() == 0 {
        assert(text.drop_last() =~= a);
        assert(words(a) + words(b) =~= words(a));
    } else {
        let shorter = b.drop_last();
        law_space_parts_words(a, space, shorter);
        assert(text.drop_last() =~= a + seq![space] + shorter);
        if b.len() > 1 && !is_space(b.last()) && !is_space(b[b.len() - 2]) {
            words_end(shorter);
            let before = words(a) + words(shorter);
            assert(before.last() == words(shorter).last());
            assert(before.drop_last() =~= words(a) + words(shorter).drop_last());
        }
        assert(words(text) =~= words(a) + words(b));
    }
}

/// A text without spaces is one word.
pub proof fn law_one_word(word: Seq<char>)
    requires
        word.len() > 0,
        !word.contains(' ') && !word.contains('\t') && !word.contains('\r') && !word.contains('\n'),
    ensures
        words(word) == seq![word],
    decreases word.len(),
{
    assert(word.contains(word.last()));
    if word.len() == 1 {
        assert(word =~= seq![word.last()]);
        assert(words(word.drop_last()) =~= Seq::<Seq<char>>::empty());
        assert(words(word) =~= seq![word]);
    } else {
        let shorter = word.drop_last();
        assert forall|i: int| 0 <= i < shorter.len() implies word.contains(#[trigger] shorter[i]) by {
            assert(word.contains(word[i]));
        }
        law_one_word(shorter);
        assert(word.contains(word[word.len() - 2]));
        assert(shorter.push(word.last()) =~= word);
        let before = words(shorter);
        assert(before.drop_last() =~= Seq::<Seq<char>>::empty());
        assert(before.last() == shorter);
        assert(words(word) =~= seq![word]);
    }
}

/// A dash at either end of what stands inside is no part of it.
pub proof fn law_dashes_are_taken_off(inside: Seq<char>)
    requires
        inside.len() > 0,
        inside[0] != '-',
        inside.last() != '-',
    ensures
        without_dashes(inside) == inside,
        without_dashes(seq!['-'] + inside) == inside,
        without_dashes(inside + seq!['-']) == inside,
        without_dashes(seq!['-'] + inside + seq!['-']) == inside,
{
    assert((seq!['-'] + inside).skip(1) =~= inside);
    assert((inside + seq!['-']).drop_last() =~= inside);
    let both = seq!['-'] + inside + seq!['-'];
    assert(both.skip(1) =~= inside + seq!['-']);
}

/// A path is made of letters, digits, underscores and dots, and begins with a letter or an underscore.
pub proof fn law_path(word: Seq<char>)
    ensures
        is_path(word) ==> word.len() > 0 && !('0' <= word[0] <= '9') && word[0] != '.',
        is_path(word) ==> forall|i: int|
            0 <= i < word.len() ==> 'a' <= #[trigger] word[i] <= 'z' || 'A' <= word[i] <= 'Z' || '0'
                <= word[i] <= '9' || word[i] == '_' || word[i] == '.',
        is_path(word) && word.len() > 1 ==> !(word[0] == 'i' && word[1] == 's'),
        word.len() > 0 && word[0] != 'i' && (forall|i: int|
            0 <= i < word.len() ==> 'a' <= #[trigger] word[i] <= 'z' || 'A' <= word[i] <= 'Z'
                || word[i] == '_') ==> is_path(word),
{
}

/// What may stand in a condition: a path, a number, a text in quotes or one of the six comparisons. Outside
/// of quotes nothing calls for anything.
pub proof fn law_word_of_condition(word: Seq<char>)
    ensures
        is_path(word) ==> in_condition(word),
        in_condition("=="@) && in_condition("!="@) && in_condition("<"@) && in_condition("<="@)
            && in_condition(">"@) && in_condition(">="@),
        word.len() > 0 && (forall|i: int|
            0 <= i < word.len() ==> '0' <= #[trigger] word[i] <= '9') ==> in_condition(word),
        !word.contains('"') ==> in_condition(seq!['"'] + word + seq!['"']),
        in_condition(word) && !word.contains('"') ==> !word.contains('(') && !word.contains('|')
            && !word.contains('['),
{
    reveal_strlit("==");
    reveal_strlit("!=");
    reveal_strlit("<");
    reveal_strlit("<=");
    reveal_strlit(">");
    reveal_strlit(">=");
    let quoted = seq!['"'] + word + seq!['"'];
    if !word.contains('"') {
        assert forall|i: int| 0 <= i < quoted.len() implies ((#[trigger] quoted[i]) == '"' <==> i == 0
            || i == quoted.len() - 1) by {
            if 0 < i < quoted.len() - 1 {
                assert(quoted[i] == word[i - 1]);
                assert(word.contains(word[i - 1]));
            }
        }
        assert(is_quoted(quoted));
        if is_quoted(word) {
            assert(word[0] == '"');
            assert(word.contains(word[0]));
        }
    }
}

/// The lists are those that templates are rendered with, by themselves or behind a dot.
pub proof fn law_lists(path: Seq<char>, name: Seq<char>)
    ensures
        name == "listeners"@ || name == "virtual_hosts"@ || name == "route_configs"@ || name
            == "clusters"@ || name == "endpoints"@ || name == "secrets"@ ==> is_list(name)
            && is_list(path + seq!['.'] + name),
        is_list(path) ==> path.contains('s'),
{
    let longer = path + seq!['.'] + name;
    assert(longer.skip(longer.len() - name.len()) =~= name);
    if is_list(path) {
        reveal_strlit("listeners");
        reveal_strlit("virtual_hosts");
        reveal_strlit("route_configs");
        reveal_strlit("clusters");
        reveal_strlit("endpoints");
        reveal_strlit("secrets");
        assert forall|word: Seq<char>|
            word.len() > 0 && word.last() == 's' && #[trigger] ends_in(path, word) implies path.contains(
            's',
        ) by {
            if path != word {
                let start = path.len() - word.len();
                assert(path.skip(start).last() == path.last());
            }
            assert(path.contains(path.last()));
        }
    }
}

/// What is read while something stands inside a variable, a tag or a comment.
proof fn reads_inside(before: Seq<char>, mark: char, inside: Seq<char>)
    requires
        read(before).place == Place::Text,
        mark == '{' || mark == '%' || mark == '#',
        !inside.contains('}'),
    ensures
        read(before + seq!['{', mark] + inside) == (Reading {
            place: opened_by(mark),
            inside,
            ..read(before)
        }),
    decreases inside.len(),
{
    let opening = before + seq!['{', mark];
    if inside.len() == 0 {
        nothing_inside(before);
        let brace = before + seq!['{'];
        assert(brace.drop_last() =~= before);
        assert(read(brace) == read(before).next('{'));
        assert(opening.drop_last() =~= brace);
        assert(read(opening) == read(brace).next(mark));
        assert(opening + inside =~= opening);
        assert(read(before).inside =~= inside);
    } else {
        let shorter = inside.drop_last();
        assert forall|i: int| 0 <= i < shorter.len() implies shorter[i] != '}' by {
            assert(inside.contains(inside[i]));
        }
        assert(inside.contains(inside.last()));
        reads_inside(before, mark, shorter);
        assert((opening + inside).drop_last() =~= opening + shorter);
        assert(shorter.push(inside.last()) =~= inside);
    }
}

/// What is read where it ends.
proof fn reads_to_its_end(before: Seq<char>, mark: char, inside: Seq<char>, end: char)
    requires
        read(before).place == Place::Text,
        mark == '{' && end == '}' || mark == '%' && end == '%' || mark == '#' && end == '#',
        !inside.contains('}'),
    ensures
        read(before + seq!['{', mark] + inside + seq![end, '}']) == (Reading {
            place: opened_by(mark),
            inside: inside.push(end),
            ..read(before)
        }).closed(),
{
    let open = before + seq!['{', mark] + inside;
    reads_inside(before, mark, inside);
    let almost = open + seq![end];
    assert(almost.drop_last() =~= open);
    if inside.len() > 0 {
        assert(inside.contains(inside.last()));
    }
    assert(read(almost) == read(open).next(end));
    assert((open + seq![end, '}']).drop_last() =~= almost);
    assert(inside.push(end).last() == end);
}

/// What is opened and not closed does not fit.
pub proof fn law_unclosed_does_not_fit(before: Seq<char>, mark: char, inside: Seq<char>)
    requires
        read(before).place == Place::Text,
        mark == '{' || mark == '%' || mark == '#',
        !inside.contains('}'),
    ensures
        !fits(before + seq!['{', mark] + inside),
{
    reads_inside(before, mark, inside);
}

/// A comment is passed over, whatever stands in it.
pub proof fn law_comment_is_passed_over(before: Seq<char>, inside: Seq<char>)
    requires
        read(before).place == Place::Text,
        !inside.contains('}'),
    ensures
        read(before + seq!['{', '#'] + inside + seq!['#', '}']) == read(before),
{
    nothing_inside(before);
    reads_to_its_end(before, '#', inside, '#');
    assert(read(before).inside =~= Seq::<char>::empty());
}

/// A variable fits where one path stands in it, and nothing else does.
pub proof fn law_variable(before: Seq<char>, inside: Seq<char>)
    requires
        read(before).place == Place::Text,
        !inside.contains('}'),
    ensures
        ({
            let source = before + seq!['{', '{'] + inside + seq!['}', '}'];
            let all = words(without_dashes(inside));
            &&& read(source).place == Place::Text
            &&& read(source).depth == read(before).depth
            &&& fits(source) <==> fits(before) && all.len() == 1 && is_path(all[0])
        }),
{
    reads_to_its_end(before, '{', inside, '}');
    assert(inside.push('}').drop_last() =~= inside);
}

/// A name that does not begin as a test does is a variable, with a space on each side.
pub proof fn law_named_variable(before: Seq<char>, name: Seq<char>)
    requires
        read(before).place == Place::Text,
        name.len() > 0,
        name[0] != 'i',
        forall|i: int| 0 <= i < name.len() ==> 'a' <= #[trigger] name[i] <= 'z' || name[i] == '_',
    ensures
        fits(before + seq!['{', '{'] + (seq![' '] + name + seq![' ']) + seq!['}', '}']) <==> fits(
            before,
        ),
{
    let inside = seq![' '] + name + seq![' '];
    assert forall|i: int| 0 <= i < inside.len() implies inside[i] != '}' by {
        if 0 < i < inside.len() - 1 {
            assert(inside[i] == name[i - 1]);
        }
    }
    law_variable(before, inside);
    law_dashes_are_taken_off(inside);
    law_one_word(name);
    let empty = Seq::<char>::empty();
    law_space_parts_words(empty, ' ', name);
    law_space_parts_words(seq![' '] + name, ' ', empty);
    assert(empty + seq![' '] + name =~= seq![' '] + name);
    assert(seq![' '] + name + seq![' '] + empty =~= inside);
    assert(words(inside) =~= seq![name]);
    law_path(name);
}

/// A condition and a loop take the source one step deeper, up to sixteen; their ends take it back. What
/// else stands in tags takes it nowhere, and fits where it is a part of a condition.
pub proof fn law_tag(before: Seq<char>, inside: Seq<char>, word: Seq<char>, list: Seq<char>)
    requires
        read(before).place == Place::Text,
        !inside.contains('}'),
    ensures
        ({
            let source = before + seq!['{', '%'] + inside + seq!['%', '}'];
            let all = words(without_dashes(inside));
            let deeper = all == seq!["if"@, word] && in_condition(word) || all == seq![
                "for"@,
                word,
                "in"@,
                list,
            ] && is_path(word) && is_path(list) && is_list(list);
            let back = all == seq!["endif"@] || all == seq!["endfor"@];
            &&& read(source).place == Place::Text
            &&& deeper && read(before).depth < 16 ==> read(source).depth == read(before).depth + 1 && (
            fits(source) <==> fits(before))
            &&& deeper && read(before).depth >= 16 ==> !fits(source)
            &&& back && read(before).depth > 0 ==> read(source).depth == read(before).depth - 1 && (
            fits(source) <==> fits(before))
            &&& back && read(before).depth == 0 ==> !fits(source)
            &&& all == seq!["else"@] || all == seq!["elif"@, word] && in_condition(word) ==> read(
                source,
            ).depth == read(before).depth && (fits(source) <==> fits(before))
            &&& all == seq!["if"@, word] && !in_condition(word) ==> !fits(source)
            &&& all == seq!["for"@, word, "in"@, list] && !is_list(list) ==> !fits(source)
            &&& all.len() == 0 ==> !fits(source)
            &&& all.len() > 0 && all[0] != "if"@ && all[0] != "elif"@ && all[0] != "else"@ && all[0]
                != "for"@ && all[0] != "endif"@ && all[0] != "endfor"@ ==> !fits(source)
            &&& all.len() > 32 ==> !fits(source)
        }),
{
    reads_to_its_end(before, '%', inside, '%');
    assert(inside.push('%').drop_last() =~= inside);
    reveal_strlit("if");
    reveal_strlit("elif");
    reveal_strlit("else");
    reveal_strlit("for");
    reveal_strlit("in");
    reveal_strlit("endif");
    reveal_strlit("endfor");
    assert("if"@.len() == 2 && "elif"@.len() == 4 && "else"@.len() == 4 && "for"@.len() == 3);
    assert("endif"@.len() == 5 && "endfor"@.len() == 6);
    assert("elif"@[1] == 'l' && "elif"@[2] == 'i' && "else"@[2] == 's');
}

/// Conditions and loops stand inside each other at most sixteen deep.
pub proof fn law_depth(source: Seq<char>)
    ensures
        read(source).depth <= 16,
    decreases source.len(),
{
    if source.len() > 0 {
        law_depth(source.drop_last());
    }
}

} // verus!
