//! Matching tags by prefix: a tag is matched by a prefix if it is the prefix
//! or one of its children, the case of ASCII letters aside.

use crate::tags::all_clean;
use crate::tags::is_clean_tag;
use crate::tags::is_tag_separator_spec;
use crate::tags::join_tags;
use crate::tags::join_tags_spec;
use crate::tags::lemma_split_spaced;
use crate::tags::split_tags;
use crate::tags::split_tags_spec;
use crate::text::chars_of;
use crate::text::eq_ignore_case;
use crate::text::fold;
use crate::text::fold_char;
use crate::text::string_of;
use vstd::prelude::*;

verus! {

/// A test of tags, applied to a text of tags or to a single tag.
pub trait TagPredicate {
    /// Whether the text of tags `tags` passes the test.
    spec fn accepts(&self, tags: Seq<char>) -> bool;

    /// Whether the text of tags `tags` passes the test.
    fn is_match(&self, tags: &str) -> (matched: bool)
        ensures
            matched == self.accepts(tags@),
    ;
}

/// Whether `tag` is `prefix` or a child of it: whether it begins with
/// `prefix`, the case of ASCII letters aside, and ends there or goes on with
/// `::`.
pub open spec fn tag_under(tag: Seq<char>, prefix: Seq<char>) -> bool {
    &&& prefix.len() <= tag.len()
    &&& eq_ignore_case(tag.take(prefix.len() as int), prefix)
    &&& (tag.len() == prefix.len() || (tag.len() >= prefix.len() + 2 && tag[prefix.len() as int]
        == ':' && tag[prefix.len() as int + 1] == ':'))
}

/// The position of the first of `prefixes` from `from` on that `tag` is
/// under; the number of prefixes where there is none.
pub open spec fn first_prefix(prefixes: Seq<Seq<char>>, tag: Seq<char>, from: int) -> int
    decreases prefixes.len() - from,
{
    if from < 0 || from >= prefixes.len() {
        prefixes.len() as int
    } else if tag_under(tag, prefixes[from]) {
        from
    } else {
        first_prefix(prefixes, tag, from + 1)
    }
}

/// Whether `tag` is under one of `prefixes`.
pub open spec fn tag_matches(prefixes: Seq<Seq<char>>, tag: Seq<char>) -> bool {
    first_prefix(prefixes, tag, 0) < prefixes.len()
}

/// Whether one of `tags` is under one of `prefixes`.
pub open spec fn any_matches(prefixes: Seq<Seq<char>>, tags: Seq<Seq<char>>) -> bool {
    exists|i: int| 0 <= i < tags.len() && tag_matches(prefixes, #[trigger] tags[i])
}

/// The tag `tag` with the first of `prefixes` that it is under replaced by
/// `replacement`; `tag` itself where it is under none.
pub open spec fn renamed(prefixes: Seq<Seq<char>>, tag: Seq<char>, replacement: Seq<char>) -> Seq<
    char,
> {
    let i = first_prefix(prefixes, tag, 0);
    if i < prefixes.len() {
        replacement + tag.skip(prefixes[i].len() as int)
    } else {
        tag
    }
}

/// Each of `tags` renamed.
pub open spec fn all_renamed(
    prefixes: Seq<Seq<char>>,
    tags: Seq<Seq<char>>,
    replacement: Seq<char>,
) -> Seq<Seq<char>> {
    tags.map_values(|tag: Seq<char>| renamed(prefixes, tag, replacement))
}

/// The new names noted while `tags` are renamed: `noted`, and behind it
/// each name that a renaming gave and that was not yet noted, in the order of
/// the tags.
pub open spec fn noted_names(
    noted: Seq<Seq<char>>,
    prefixes: Seq<Seq<char>>,
    tags: Seq<Seq<char>>,
    replacement: Seq<char>,
) -> Seq<Seq<char>>
    decreases tags.len(),
{
    if tags.len() == 0 {
        noted
    } else {
        let before = noted_names(noted, prefixes, tags.drop_last(), replacement);
        let name = renamed(prefixes, tags.last(), replacement);
        if tag_matches(prefixes, tags.last()) && !before.contains(name) {
            before.push(name)
        } else {
            before
        }
    }
}

/// The first prefix that a tag is under lies among the prefixes, and the
/// tag is under it and under none before it.
pub proof fn lemma_first_prefix(prefixes: Seq<Seq<char>>, tag: Seq<char>, from: int)
    requires
        0 <= from <= prefixes.len(),
    ensures
        from <= first_prefix(prefixes, tag, from) <= prefixes.len(),
        first_prefix(prefixes, tag, from) < prefixes.len() ==> tag_under(
            tag,
            prefixes[first_prefix(prefixes, tag, from)],
        ),
        forall|i: int|
            from <= i < first_prefix(prefixes, tag, from) ==> !tag_under(tag, #[trigger] prefixes[i]),
    decreases prefixes.len() - from,
{
    if from < prefixes.len() && !tag_under(tag, prefixes[from]) {
        lemma_first_prefix(prefixes, tag, from + 1);
    }
}

/// A clean tag renamed with a clean replacement is a clean tag.
pub proof fn lemma_renamed_is_clean(
    prefixes: Seq<Seq<char>>,
    tag: Seq<char>,
    replacement: Seq<char>,
)
    requires
        is_clean_tag(tag),
        is_clean_tag(replacement),
    ensures
        is_clean_tag(renamed(prefixes, tag, replacement)),
{
    lemma_first_prefix(prefixes, tag, 0);
}

/// The tags that a text holds are clean.
pub proof fn lemma_split_is_clean(text: Seq<char>)
    ensures
        all_clean(split_tags_spec(text)),
    decreases text.len(),
{
    if text.len() > 0 {
        lemma_split_is_clean(text.drop_last());
        lemma_split_ends_open(text.drop_last());
        let before = split_tags_spec(text.drop_last());
        let c = text.last();
        if !is_tag_separator_spec(c) {
            if text.len() >= 2 && !is_tag_separator_spec(text[text.len() - 2]) {
                assert(text.drop_last().last() == text[text.len() - 2]);
                let grown = before.last().push(c);
                assert(is_clean_tag(before[before.len() - 1]));
                assert(is_clean_tag(grown));
            } else {
                assert(is_clean_tag(seq![c]));
            }
        }
    }
}

/// A text that does not end with a separator holds a tag.
proof fn lemma_split_ends_open(text: Seq<char>)
    ensures
        text.len() > 0 && !is_tag_separator_spec(text.last()) ==> split_tags_spec(text).len() > 0,
    decreases text.len(),
{
    if text.len() > 0 {
        lemma_split_ends_open(text.drop_last());
    }
}

/// Writing renamed tags to a text and reading them back gives the renamed
/// tags, where the replacement is clean.
pub proof fn lemma_renamed_text_round_trip(
    prefixes: Seq<Seq<char>>,
    text: Seq<char>,
    replacement: Seq<char>,
)
    requires
        is_clean_tag(replacement),
    ensures
        split_tags_spec(
            join_tags_spec(all_renamed(prefixes, split_tags_spec(text), replacement)),
        ) == all_renamed(prefixes, split_tags_spec(text), replacement),
{
    let tags = split_tags_spec(text);
    lemma_split_is_clean(text);
    assert forall|i: int| 0 <= i < tags.len() implies is_clean_tag(
        #[trigger] all_renamed(prefixes, tags, replacement)[i],
    ) by {
        lemma_renamed_is_clean(prefixes, tags[i], replacement);
    }
    lemma_split_spaced(all_renamed(prefixes, tags, replacement));
}

/// The prefixes to match tags by, with the new names that renamings have
/// given so far.
pub struct TagMatcher {
    prefixes: Vec<Vec<char>>,
    new_tags: Vec<String>,
}

impl TagMatcher {
    /// The prefixes.
    pub closed spec fn prefixes(&self) -> Seq<Seq<char>> {
        self.prefixes@.map_values(|prefix: Vec<char>| prefix@)
    }

    /// The new names noted so far, each once.
    pub closed spec fn new_names(&self) -> Seq<Seq<char>> {
        self.new_tags.deep_view()
    }

    /// A matcher for the tags that `space_separated_tags` holds, each taken
    /// as a prefix.
    pub fn new(space_separated_tags: &str) -> (matcher: TagMatcher)
        ensures
            matcher.prefixes() == split_tags_spec(space_separated_tags@),
            matcher.new_names() == Seq::<Seq<char>>::empty(),
    {
        let tags = split_tags(space_separated_tags);
        let mut prefixes: Vec<Vec<char>> = Vec::new();
        let mut i: usize = 0;
        while i < tags.len()
            invariant
                i <= tags.len(),
                prefixes@.map_values(|prefix: Vec<char>| prefix@) == tags.deep_view().take(
                    i as int,
                ),
            decreases tags.len() - i,
        {
            let ghost before = prefixes@.map_values(|prefix: Vec<char>| prefix@);
            prefixes.push(chars_of(tags[i].as_str()));
            assert(prefixes@.map_values(|prefix: Vec<char>| prefix@) =~= before.push(
                tags@[i as int]@,
            ));
            assert(tags.deep_view().take(i + 1) =~= tags.deep_view().take(i as int).push(
                tags@[i as int]@,
            ));
            i += 1;
        }
        assert(tags.deep_view().take(i as int) =~= tags.deep_view());
        let matcher = TagMatcher { prefixes, new_tags: Vec::new() };
        assert(matcher.new_names() =~= Seq::<Seq<char>>::empty());
        matcher
    }

    /// Whether `tag` is under `prefix`.
    fn is_under(tag: &Vec<char>, prefix: &Vec<char>) -> (under: bool)
        ensures
            under == tag_under(tag@, prefix@),
    {
        let n = prefix.len();
        if n > tag.len() {
            return false;
        }
        let mut i: usize = 0;
        while i < n
            invariant
                i <= n,
                n == prefix.len(),
                n <= tag.len(),
                forall|j: int|
                    0 <= j < i ==> fold_char(#[trigger] tag@.take(n as int)[j]) == fold_char(
                        prefix@[j],
                    ),
            decreases n - i,
        {
            if fold(tag[i]) != fold(prefix[i]) {
                assert(tag@.take(n as int)[i as int] == tag@[i as int]);
                return false;
            }
            assert(tag@.take(n as int)[i as int] == tag@[i as int]);
            i += 1;
        }
        if tag.len() == n {
            return true;
        }
        tag.len() - n >= 2 && tag[n] == ':' && tag[n + 1] == ':'
    }

    /// The position of the first prefix that `tag` is under, if there is
    /// one.
    fn find_prefix(&self, tag: &Vec<char>) -> (found: Option<usize>)
        ensures
            found is Some <==> tag_matches(self.prefixes(), tag@),
            found matches Some(i) ==> i as int == first_prefix(self.prefixes(), tag@, 0) && i
                < self.prefixes.len() && self.prefixes@[i as int]@ == self.prefixes()[i as int],
    {
        let mut i: usize = 0;
        proof {
            lemma_first_prefix(self.prefixes(), tag@, 0);
        }
        while i < self.prefixes.len()
            invariant
                i <= self.prefixes.len(),
                self.prefixes().len() == self.prefixes.len(),
                first_prefix(self.prefixes(), tag@, 0) == first_prefix(
                    self.prefixes(),
                    tag@,
                    i as int,
                ),
            decreases self.prefixes.len() - i,
        {
            assert(self.prefixes()[i as int] == self.prefixes@[i as int]@);
            if TagMatcher::is_under(tag, &self.prefixes[i]) {
                return Some(i);
            }
            i += 1;
        }
        None
    }

    /// Whether the single tag `tag` is under one of the prefixes.
    pub fn matches_tag(&self, tag: &str) -> (matched: bool)
        ensures
            matched == tag_matches(self.prefixes(), tag@),
    {
        let chars = chars_of(tag);
        self.find_prefix(&chars).is_some()
    }

    /// Replaces, in each tag of `space_separated_tags` that is under one of
    /// the prefixes, the first such prefix by `replacement`, notes each new
    /// name that this gives, and returns the text of the tags.
    pub fn replace(&mut self, space_separated_tags: &str, replacement: &str) -> (replaced: String)
        ensures
            final(self).prefixes() == old(self).prefixes(),
            replaced@ == join_tags_spec(
                all_renamed(
                    old(self).prefixes(),
                    split_tags_spec(space_separated_tags@),
                    replacement@,
                ),
            ),
            final(self).new_names() == noted_names(
                old(self).new_names(),
                old(self).prefixes(),
                split_tags_spec(space_separated_tags@),
                replacement@,
            ),
    {
        let tags = split_tags(space_separated_tags);
        let new_prefix = chars_of(replacement);
        let mut out: Vec<String> = Vec::new();
        let ghost all = tags.deep_view();
        let mut i: usize = 0;
        while i < tags.len()
            invariant
                i <= tags.len(),
                all == tags.deep_view(),
                new_prefix@ == replacement@,
                self.prefixes() == old(self).prefixes(),
                out.deep_view() == all_renamed(self.prefixes(), all.take(i as int), replacement@),
                self.new_names() == noted_names(
                    old(self).new_names(),
                    self.prefixes(),
                    all.take(i as int),
                    replacement@,
                ),
            decreases tags.len() - i,
        {
            proof {
                assert(all.take(i + 1).drop_last() =~= all.take(i as int));
                assert(all.take(i + 1).last() == tags@[i as int]@);
            }
            let ghost before = out.deep_view();
            let tag = chars_of(tags[i].as_str());
            match self.find_prefix(&tag) {
                Some(at) => {
                    let skip = self.prefixes[at].len();
                    proof {
                        lemma_first_prefix(self.prefixes(), tag@, 0);
                    }
                    let mut name: Vec<char> = Vec::new();
                    let mut j: usize = 0;
                    while j < new_prefix.len()
                        invariant
                            j <= new_prefix.len(),
                            name@ == new_prefix@.take(j as int),
                        decreases new_prefix.len() - j,
                    {
                        name.push(new_prefix[j]);
                        assert(new_prefix@.take(j + 1) =~= new_prefix@.take(j as int).push(
                            new_prefix@[j as int],
                        ));
                        j += 1;
                    }
                    assert(new_prefix@.take(j as int) =~= new_prefix@);
                    let mut k: usize = skip;
                    while k < tag.len()
                        invariant
                            skip <= k <= tag.len(),
                            name@ == new_prefix@ + tag@.subrange(skip as int, k as int),
                        decreases tag.len() - k,
                    {
                        name.push(tag[k]);
                        assert(new_prefix@ + tag@.subrange(skip as int, k + 1) =~= (new_prefix@
                            + tag@.subrange(skip as int, k as int)).push(tag@[k as int]));
                        k += 1;
                    }
                    assert(tag@.subrange(skip as int, tag.len() as int) =~= tag@.skip(skip as int));
                    let renamed_tag = string_of(&name);
                    if !TagMatcher::holds_name(&self.new_tags, &renamed_tag) {
                        let ghost noted = self.new_tags.deep_view();
                        self.new_tags.push(renamed_tag.clone());
                        assert(self.new_tags.deep_view() =~= noted.push(renamed_tag@));
                    }
                    out.push(renamed_tag);
                },
                None => {
                    out.push(tags[i].clone());
                },
            }
            assert(out.deep_view() =~= before.push(
                renamed(self.prefixes(), tags@[i as int]@, replacement@),
            ));
            assert(all_renamed(self.prefixes(), all.take(i + 1), replacement@) =~= all_renamed(
                self.prefixes(),
                all.take(i as int),
                replacement@,
            ).push(renamed(self.prefixes(), tags@[i as int]@, replacement@)));
            i += 1;
        }
        assert(all.take(i as int) =~= all);
        join_tags(&out)
    }

    /// Whether `names` holds `name`.
    fn holds_name(names: &Vec<String>, name: &String) -> (held: bool)
        ensures
            held == names.deep_view().contains(name@),
    {
        let mut i: usize = 0;
        while i < names.len()
            invariant
                i <= names.len(),
                forall|j: int| 0 <= j < i ==> names.deep_view()[j] != name@,
            decreases names.len() - i,
        {
            if names[i] == *name {
                assert(names.deep_view()[i as int] == name@);
                return true;
            }
            i += 1;
        }
        false
    }

    /// The new names that the renamings have given, each once, in the order
    /// in which they were first given.
    pub fn into_new_tags(self) -> (names: Vec<String>)
        ensures
            names.deep_view() == self.new_names(),
    {
        self.new_tags
    }
}

impl TagPredicate for TagMatcher {
    /// A text of tags passes if one of its tags is under one of the
    /// prefixes.
    open spec fn accepts(&self, tags: Seq<char>) -> bool {
        any_matches(self.prefixes(), split_tags_spec(tags))
    }

    fn is_match(&self, tags: &str) -> (matched: bool) {
        let list = split_tags(tags);
        let mut i: usize = 0;
        while i < list.len()
            invariant
                i <= list.len(),
                list.deep_view() == split_tags_spec(tags@),
                forall|j: int|
                    0 <= j < i ==> !tag_matches(self.prefixes(), #[trigger] list.deep_view()[j]),
            decreases list.len() - i,
        {
            let tag = chars_of(list[i].as_str());
            assert(list.deep_view()[i as int] == tag@);
            if self.find_prefix(&tag).is_some() {
                assert(tag_matches(self.prefixes(), list.deep_view()[i as int]));
                return true;
            }
            i += 1;
        }
        false
    }
}

} // verus!
