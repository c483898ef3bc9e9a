//! Tags: how they are separated in a text, split and joined.

use crate::text::chars_of;
use crate::text::eq_ignore_case;
use crate::text::fold;
use crate::text::fold_char;
use crate::text::string_of;
use crate::types::Usn;
use vstd::prelude::*;
use vstd::string::StringExecFns;

verus! {

/// A tag of the registry.
#[derive(Clone, Debug, PartialEq, Eq)]
pub struct Tag {
    pub name: String,
    pub usn: Usn,
    /// Whether the tag's children are shown.
    pub expanded: bool,
}

/// What a tag of the registry holds, with its name as a character sequence.
#[verifier::ext_equal]
pub struct TagRow {
    pub name: Seq<char>,
    pub usn: Usn,
    pub expanded: bool,
}

impl View for Tag {
    type V = TagRow;

    open spec fn view(&self) -> TagRow {
        TagRow { name: self.name@, usn: self.usn, expanded: self.expanded }
    }
}

impl Tag {
    /// A tag named `name`, to be synchronised under `usn`.
    pub fn new(name: String, usn: Usn) -> (tag: Tag)
        ensures
            tag@ == (TagRow { name: name@, usn, expanded: false }),
    {
        Tag { name, usn, expanded: false }
    }

    /// A copy that holds the same values.
    pub fn duplicate(&self) -> (copy: Tag)
        ensures
            copy@ == self@,
    {
        Tag { name: self.name.clone(), usn: self.usn, expanded: self.expanded }
    }
}

/// The characters that separate tags in a text: the space and the
/// ideographic space.
pub open spec fn is_tag_separator_spec(c: char) -> bool {
    c == ' ' || c == '\u{3000}'
}

/// Whether `c` separates tags.
pub fn is_tag_separator(c: char) -> (sep: bool)
    ensures
        sep == is_tag_separator_spec(c),
{
    c == ' ' || c == '\u{3000}'
}

/// The tags in a text: its maximal runs of characters that are no
/// separators, from left to right. Stated by what the last character of the
/// text does to the tags of the text before it: a separator leaves them as
/// they are, any other character extends the last tag or begins a new one.
pub open spec fn split_tags_spec(s: Seq<char>) -> Seq<Seq<char>>
    decreases s.len(),
{
    if s.len() == 0 {
        Seq::empty()
    } else {
        let before = split_tags_spec(s.drop_last());
        let c = s.last();
        if is_tag_separator_spec(c) {
            before
        } else if s.len() >= 2 && !is_tag_separator_spec(s[s.len() - 2]) {
            before.drop_last().push(before.last().push(c))
        } else {
            before.push(seq![c])
        }
    }
}

/// A tag as it is stored: not empty, and without a separator in it.
pub open spec fn is_clean_tag(tag: Seq<char>) -> bool {
    &&& tag.len() > 0
    &&& forall|i: int| 0 <= i < tag.len() ==> !is_tag_separator_spec(#[trigger] tag[i])
}

/// Every tag of `tags` is clean.
pub open spec fn all_clean(tags: Seq<Seq<char>>) -> bool {
    forall|i: int| 0 <= i < tags.len() ==> is_clean_tag(#[trigger] tags[i])
}

/// The tags, each with a space before it.
pub open spec fn spaced(tags: Seq<Seq<char>>) -> Seq<char>
    decreases tags.len(),
{
    if tags.len() == 0 {
        Seq::empty()
    } else {
        spaced(tags.drop_last()) + seq![' '] + tags.last()
    }
}

/// The text in which tags are stored: empty where there is no tag, else
/// the tags with one space between them, before the first and after the last.
pub open spec fn join_tags_spec(tags: Seq<Seq<char>>) -> Seq<char> {
    if tags.len() == 0 {
        Seq::empty()
    } else {
        spaced(tags) + seq![' ']
    }
}

/// A separator at the end of a text adds no tag to it.
pub proof fn lemma_split_push_separator(s: Seq<char>, c: char)
    requires
        is_tag_separator_spec(c),
    ensures
        split_tags_spec(s.push(c)) == split_tags_spec(s),
{
    assert(s.push(c).drop_last() =~= s);
}

/// A run of characters that are no separators, set behind a text that does
/// not end inside a tag, is one more tag.
pub proof fn lemma_split_append_word(s: Seq<char>, w: Seq<char>)
    requires
        s.len() == 0 || is_tag_separator_spec(s.last()),
        is_clean_tag(w),
    ensures
        split_tags_spec(s + w) == split_tags_spec(s).push(w),
    decreases w.len(),
{
    let c = w.last();
    let head = w.drop_last();
    assert(s + w =~= (s + head).push(c));
    assert((s + head).push(c).drop_last() =~= s + head);
    assert(!is_tag_separator_spec(c));
    if head.len() == 0 {
        assert(s + head =~= s);
        assert(w =~= seq![c]);
    } else {
        assert(forall|i: int| 0 <= i < head.len() ==> head[i] == w[i]);
        lemma_split_append_word(s, head);
        assert((s + head).last() == head.last());
        assert(!is_tag_separator_spec(head.last()));
        assert((s + w)[(s + w).len() - 2] == head.last());
        assert(split_tags_spec(s).push(head).drop_last() =~= split_tags_spec(s));
        assert(head.push(c) =~= w);
    }
}

/// Splitting the text in which clean tags are stored gives the tags back.
pub proof fn lemma_split_spaced(tags: Seq<Seq<char>>)
    requires
        all_clean(tags),
    ensures
        split_tags_spec(spaced(tags)) == tags,
        split_tags_spec(join_tags_spec(tags)) == tags,
    decreases tags.len(),
{
    if tags.len() == 0 {
        assert(split_tags_spec(spaced(tags)) =~= tags);
    } else {
        let init = tags.drop_last();
        lemma_split_spaced(init);
        lemma_split_push_separator(spaced(init), ' ');
        assert(spaced(init) + seq![' '] =~= spaced(init).push(' '));
        assert((spaced(init) + seq![' ']).last() == ' ');
        lemma_split_append_word(spaced(init) + seq![' '], tags.last());
        assert(init.push(tags.last()) =~= tags);
        lemma_split_push_separator(spaced(tags), ' ');
        assert(spaced(tags) + seq![' '] =~= spaced(tags).push(' '));
    }
}

/// The tags in `tags`.
pub fn split_tags(tags: &str) -> (out: Vec<String>)
    ensures
        out.deep_view() == split_tags_spec(tags@),
{
    let chars = chars_of(tags);
    let mut out: Vec<String> = Vec::new();
    let mut word: Vec<char> = Vec::new();
    let mut i: usize = 0;
    while i < chars.len()
        invariant
            i <= chars.len(),
            chars@ == tags@,
            word.len() > 0 <==> (i > 0 && !is_tag_separator_spec(chars[i - 1])),
            split_tags_spec(chars@.take(i as int)) == if word.len() > 0 {
                out.deep_view().push(word@)
            } else {
                out.deep_view()
            },
        decreases chars.len() - i,
    {
        let c = chars[i];
        proof {
            assert(chars@.take(i + 1).drop_last() =~= chars@.take(i as int));
            assert(chars@.take(i + 1).last() == c);
            if i > 0 {
                assert(chars@.take(i + 1)[i - 1] == chars[i - 1]);
            }
        }
        if is_tag_separator(c) {
            if word.len() > 0 {
                let ghost before = out.deep_view();
                let done = string_of(&word);
                out.push(done);
                assert(out.deep_view() =~= before.push(word@));
                word = Vec::new();
            }
        } else {
            let ghost before = word@;
            word.push(c);
            proof {
                if before.len() > 0 {
                    assert(out.deep_view().push(before).drop_last() =~= out.deep_view());
                } else {
                    assert(word@ =~= seq![c]);
                }
            }
        }
        i += 1;
    }
    assert(chars@.take(i as int) =~= chars@);
    if word.len() > 0 {
        let ghost before = out.deep_view();
        let done = string_of(&word);
        out.push(done);
        assert(out.deep_view() =~= before.push(word@));
    }
    out
}

/// The text in which `tags` are stored.
pub fn join_tags(tags: &Vec<String>) -> (joined: String)
    ensures
        joined@ == join_tags_spec(tags.deep_view()),
{
    let mut joined = String::new();
    if tags.len() == 0 {
        return joined;
    }
    proof {
        reveal_strlit(" ");
    }
    let mut i: usize = 0;
    while i < tags.len()
        invariant
            i <= tags.len(),
            " "@ == seq![' '],
            joined@ == spaced(tags.deep_view().take(i as int)),
        decreases tags.len() - i,
    {
        proof {
            assert(tags.deep_view().take(i + 1).drop_last() =~= tags.deep_view().take(i as int));
            assert(tags.deep_view().take(i + 1).last() == tags[i as int]@);
        }
        joined.append(" ");
        joined.append(tags[i].as_str());
        i += 1;
    }
    assert(tags.deep_view().take(i as int) =~= tags.deep_view());
    joined.append(" ");
    joined
}

/// The characters that cannot stand in the name of a tag: the ASCII control
/// characters, the separators of tags, and the double quote.
pub open spec fn is_invalid_tag_char(c: char) -> bool {
    ||| (c as u32) < 32
    ||| c as u32 == 127
    ||| is_tag_separator_spec(c)
    ||| c == '"'
}

/// The test that a character can stand in the name of a tag.
pub open spec fn valid_tag_char() -> spec_fn(char) -> bool {
    |c: char| !is_invalid_tag_char(c)
}

/// The normal form of the name of a tag: the name without the characters
/// that cannot stand in it.
pub open spec fn normalized_name(name: Seq<char>) -> Seq<char> {
    name.filter(valid_tag_char())
}

/// The normal form of `name`. It may be empty.
pub fn normalize_tag_name(name: &str) -> (normal: String)
    ensures
        normal@ == normalized_name(name@),
{
    let chars = chars_of(name);
    let mut kept: Vec<char> = Vec::new();
    let mut i: usize = 0;
    proof {
        reveal(Seq::filter);
        assert(chars@.take(0).filter(valid_tag_char()) =~= Seq::<char>::empty());
    }
    while i < chars.len()
        invariant
            i <= chars.len(),
            chars@ == name@,
            kept@ == chars@.take(i as int).filter(valid_tag_char()),
        decreases chars.len() - i,
    {
        let c = chars[i];
        proof {
            assert(chars@.take(i + 1) =~= chars@.take(i as int).push(c));
            chars@.take(i as int).lemma_filter_push(c, valid_tag_char());
        }
        let code: u32 = c as u32;
        if !(code < 32 || code == 127 || is_tag_separator(c) || c == '"') {
            kept.push(c);
        }
        i += 1;
    }
    assert(chars@.take(i as int) =~= chars@);
    string_of(&kept)
}

/// Whether `a` and `b` differ at most in the case of ASCII letters.
pub fn same_name(a: &str, b: &str) -> (same: bool)
    ensures
        same == eq_ignore_case(a@, b@),
{
    let a = chars_of(a);
    let b = chars_of(b);
    chars_same_name(&a, &b)
}

/// Whether `a` and `b` differ at most in the case of ASCII letters.
pub fn chars_same_name(a: &Vec<char>, b: &Vec<char>) -> (same: bool)
    ensures
        same == eq_ignore_case(a@, b@),
{
    if a.len() != b.len() {
        return false;
    }
    let mut i: usize = 0;
    while i < a.len()
        invariant
            i <= a.len(),
            a.len() == b.len(),
            forall|j: int| 0 <= j < i ==> fold_char(#[trigger] a@[j]) == fold_char(b@[j]),
        decreases a.len() - i,
    {
        if fold(a[i]) != fold(b[i]) {
            return false;
        }
        i += 1;
    }
    true
}

/// Whether the tag at position `i` of `tags` is the first that is named
/// `name`, the case of ASCII letters aside.
pub open spec fn is_first_named(tags: Seq<TagRow>, name: Seq<char>, i: int) -> bool {
    &&& 0 <= i < tags.len()
    &&& eq_ignore_case(tags[i].name, name)
    &&& forall|j: int| 0 <= j < i ==> !eq_ignore_case((#[trigger] tags[j]).name, name)
}

/// Whether a tag of `tags` is named `name`, the case of ASCII letters aside.
pub open spec fn has_tag_named(tags: Seq<TagRow>, name: Seq<char>) -> bool {
    exists|i: int| 0 <= i < tags.len() && eq_ignore_case((#[trigger] tags[i]).name, name)
}

/// The position of the first tag named `name`, where there is one.
pub open spec fn first_named(tags: Seq<TagRow>, name: Seq<char>) -> int {
    choose|i: int| is_first_named(tags, name, i)
}

/// Where a tag is named `name`, one is the first.
pub proof fn lemma_first_named(tags: Seq<TagRow>, name: Seq<char>)
    requires
        has_tag_named(tags, name),
    ensures
        is_first_named(tags, name, first_named(tags, name)),
    decreases tags.len(),
{
    let i = choose|i: int| 0 <= i < tags.len() && eq_ignore_case((#[trigger] tags[i]).name, name);
    lemma_first_named_upto(tags, name, i);
}

proof fn lemma_first_named_upto(tags: Seq<TagRow>, name: Seq<char>, i: int)
    requires
        0 <= i < tags.len(),
        eq_ignore_case(tags[i].name, name),
    ensures
        exists|k: int| is_first_named(tags, name, k),
    decreases i,
{
    if forall|j: int| 0 <= j < i ==> !eq_ignore_case((#[trigger] tags[j]).name, name) {
        assert(is_first_named(tags, name, i));
    } else {
        let j = choose|j: int| 0 <= j < i && eq_ignore_case((#[trigger] tags[j]).name, name);
        lemma_first_named_upto(tags, name, j);
    }
}

/// What the tags of `tags` hold.
pub open spec fn tag_rows(tags: Seq<Tag>) -> Seq<TagRow> {
    tags.map_values(|tag: Tag| tag@)
}

/// The position in `tags` of the first tag that is named `name`, the case of
/// ASCII letters aside.
pub fn find_tag(tags: &Vec<Tag>, name: &str) -> (found: Option<usize>)
    ensures
        found is Some <==> has_tag_named(tag_rows(tags@), name@),
        found matches Some(i) ==> is_first_named(tag_rows(tags@), name@, i as int),
{
    let wanted = chars_of(name);
    let mut i: usize = 0;
    while i < tags.len()
        invariant
            i <= tags.len(),
            wanted@ == name@,
            forall|j: int|
                0 <= j < i ==> !eq_ignore_case((#[trigger] tag_rows(tags@)[j]).name, name@),
        decreases tags.len() - i,
    {
        let this = chars_of(tags[i].name.as_str());
        if chars_same_name(&this, &wanted) {
            assert(tag_rows(tags@)[i as int].name == tags@[i as int].name@);
            return Some(i);
        }
        assert(tag_rows(tags@)[i as int].name == tags@[i as int].name@);
        i += 1;
    }
    None
}

/// The position of the last `::` in `name`, or -1 where there is none.
pub open spec fn last_cut(name: Seq<char>) -> int
    decreases name.len(),
{
    if name.len() < 2 {
        -1
    } else if name[name.len() - 2] == ':' && name[name.len() - 1] == ':' {
        name.len() - 2
    } else {
        last_cut(name.drop_last())
    }
}

/// The length of the nearest parent of `name` that `tags` holds, the case
/// of ASCII letters aside: of the longest beginning of `name` that ends
/// before a `::` found from the right and is the name of a tag. -1 where no
/// parent is held.
pub open spec fn held_parent_len(tags: Seq<TagRow>, name: Seq<char>) -> int
    decreases name.len(),
{
    let cut = last_cut(name);
    if cut < 0 || cut >= name.len() {
        -1
    } else if has_tag_named(tags, name.take(cut)) {
        cut
    } else {
        held_parent_len(tags, name.take(cut))
    }
}

/// The name `name` with the case of its nearest held parent: the parent's
/// name as `tags` holds it, followed by the rest of `name`. `name` itself
/// where no parent is held.
pub open spec fn with_parent_case(tags: Seq<TagRow>, name: Seq<char>) -> Seq<char> {
    let len = held_parent_len(tags, name);
    if len < 0 {
        name
    } else {
        tags[first_named(tags, name.take(len))].name + name.skip(len)
    }
}

/// The position of the last `::` among the first `len` characters of
/// `name`, if there is one.
fn find_last_cut(name: &Vec<char>, len: usize) -> (cut: Option<usize>)
    requires
        len <= name.len(),
    ensures
        cut is Some <==> last_cut(name@.take(len as int)) >= 0,
        cut matches Some(k) ==> k as int == last_cut(name@.take(len as int)) && k + 2 <= len,
{
    let mut end: usize = len;
    while end >= 2
        invariant
            end <= len <= name.len(),
            last_cut(name@.take(len as int)) == last_cut(name@.take(end as int)),
        decreases end,
    {
        proof {
            assert(name@.take(end as int).drop_last() =~= name@.take(end - 1));
        }
        if name[end - 2] == ':' && name[end - 1] == ':' {
            return Some(end - 2);
        }
        end -= 1;
    }
    None
}

/// `name` with the case of its nearest parent among `tags`, if a parent is
/// held.
pub fn adjusted_case_for_parents(tags: &Vec<Tag>, name: &str) -> (adjusted: Option<String>)
    ensures
        adjusted is Some <==> held_parent_len(tag_rows(tags@), name@) >= 0,
        adjusted matches Some(text) ==> text@ == with_parent_case(tag_rows(tags@), name@),
{
    let chars = chars_of(name);
    let mut len: usize = chars.len();
    assert(chars@.take(len as int) =~= chars@);
    loop
        invariant
            len <= chars.len(),
            chars@ == name@,
            held_parent_len(tag_rows(tags@), name@) == held_parent_len(
                tag_rows(tags@),
                chars@.take(len as int),
            ),
        decreases len,
    {
        let ghost current = chars@.take(len as int);
        match find_last_cut(&chars, len) {
            None => {
                return None;
            },
            Some(cut) => {
                assert(current.take(cut as int) =~= chars@.take(cut as int));
                let mut parent: Vec<char> = Vec::new();
                let mut i: usize = 0;
                while i < cut
                    invariant
                        i <= cut <= chars.len(),
                        parent@ == chars@.take(i as int),
                    decreases cut - i,
                {
                    parent.push(chars[i]);
                    assert(chars@.take(i + 1) =~= chars@.take(i as int).push(chars@[i as int]));
                    i += 1;
                }
                let parent_name = string_of(&parent);
                match find_tag(tags, parent_name.as_str()) {
                    Some(at) => {
                        let mut text = tags[at].name.clone();
                        let mut rest: Vec<char> = Vec::new();
                        let mut j: usize = cut;
                        while j < chars.len()
                            invariant
                                cut <= j <= chars.len(),
                                rest@ == chars@.subrange(cut as int, j as int),
                            decreases chars.len() - j,
                        {
                            rest.push(chars[j]);
                            assert(chars@.subrange(cut as int, j + 1) =~= chars@.subrange(
                                cut as int,
                                j as int,
                            ).push(chars@[j as int]));
                            j += 1;
                        }
                        assert(chars@.subrange(cut as int, chars.len() as int) =~= chars@.skip(
                            cut as int,
                        ));
                        let rest_text = string_of(&rest);
                        text.append(rest_text.as_str());
                        proof {
                            let rows = tag_rows(tags@);
                            let wanted = name@.take(cut as int);
                            lemma_first_named(rows, wanted);
                            let k = first_named(rows, wanted);
                            assert(k == at) by {
                                if k < at {
                                    assert(!eq_ignore_case(rows[k].name, wanted));
                                }
                                if at < k {
                                    assert(!eq_ignore_case(rows[at as int].name, wanted));
                                }
                            }
                            assert(rows[at as int].name == tags@[at as int].name@);
                        }
                        return Some(text);
                    },
                    None => {
                        len = cut;
                    },
                }
            },
        }
    }
}

} // verus!
