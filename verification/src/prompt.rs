//! Stored prompts.

use vstd::prelude::*;
use vstd::string::StringExecFns;
use crate::stamp::{current_timestamp, fresh_id};
use crate::text::same_text;

verus! {

/// A tag of a prompt.
#[derive(Debug, PartialEq, Eq)]
pub struct PromptTag {
    pub id: String,
    pub name: String,
}

/// A `PromptTag` as plain sequences of characters.
pub struct PromptTagView {
    pub id: Seq<char>,
    pub name: Seq<char>,
}

impl View for PromptTag {
    type V = PromptTagView;

    open spec fn view(&self) -> PromptTagView {
        PromptTagView { id: self.id@, name: self.name@ }
    }
}

impl Clone for PromptTag {
    fn clone(&self) -> (r: Self)
        ensures
            r@ == self@,
    {
        PromptTag { id: self.id.clone(), name: self.name.clone() }
    }
}

/// The views of a sequence of tags.
pub open spec fn tag_views(s: Seq<PromptTag>) -> Seq<PromptTagView> {
    s.map_values(|t: PromptTag| t@)
}

/// A stored prompt.
#[derive(Debug, PartialEq, Eq)]
pub struct Prompt {
    pub id: String,
    pub title: String,
    pub content: String,
    pub tags: Vec<PromptTag>,
    pub created_at: i64,
    pub updated_at: i64,
}

/// A `Prompt` as plain values.
pub struct PromptView {
    pub id: Seq<char>,
    pub title: Seq<char>,
    pub content: Seq<char>,
    pub tags: Seq<PromptTagView>,
    pub created_at: i64,
    pub updated_at: i64,
}

impl View for Prompt {
    type V = PromptView;

    open spec fn view(&self) -> PromptView {
        PromptView {
            id: self.id@,
            title: self.title@,
            content: self.content@,
            tags: tag_views(self.tags@),
            created_at: self.created_at,
            updated_at: self.updated_at,
        }
    }
}

/// The views of a sequence of prompts.
pub open spec fn prompt_views(s: Seq<Prompt>) -> Seq<PromptView> {
    s.map_values(|p: Prompt| p@)
}

/// A copy of `tags`.
fn clone_tags(tags: &Vec<PromptTag>) -> (r: Vec<PromptTag>)
    ensures
        tag_views(r@) == tag_views(tags@),
{
    let mut r: Vec<PromptTag> = Vec::new();
    let mut i: usize = 0;
    while i < tags.len()
        invariant
            i <= tags.len(),
            tag_views(r@) == tag_views(tags@).take(i as int),
        decreases tags.len() - i,
    {
        let ghost before = r@;
        let t = tags[i].clone();
        r.push(t);
        assert(tag_views(r@) =~= tag_views(before).push(t@));
        assert(tag_views(tags@).take(i + 1) =~= tag_views(tags@).take(i as int).push(
            tags@[i as int]@,
        ));
        i += 1;
    }
    assert(tag_views(tags@).take(i as int) == tag_views(tags@));
    r
}

impl Clone for Prompt {
    fn clone(&self) -> (r: Self)
        ensures
            r@ == self@,
    {
        Prompt {
            id: self.id.clone(),
            title: self.title.clone(),
            content: self.content.clone(),
            tags: clone_tags(&self.tags),
            created_at: self.created_at,
            updated_at: self.updated_at,
        }
    }
}

/// There is no prompt with the identifier asked for.
#[derive(Clone, Copy, Debug, PartialEq, Eq, Structural)]
pub struct PromptNotFound;

impl PromptNotFound {
    /// The error in words.
    pub fn message(&self) -> (r: String)
        ensures
            r@ == "Prompt not found"@,
    {
        String::from_str("Prompt not found")
    }
}

/// The index of the first prompt of `list` with the identifier `id`, or the
/// length of `list` where none has it.
pub open spec fn prompt_index(list: Seq<PromptView>, id: Seq<char>) -> int
    decreases list.len(),
{
    if list.len() == 0 {
        0
    } else if list[0].id == id {
        0
    } else {
        1 + prompt_index(list.skip(1), id)
    }
}

/// `list` without the prompts that have the identifier `id`.
pub open spec fn without_prompt(list: Seq<PromptView>, id: Seq<char>) -> Seq<PromptView>
    decreases list.len(),
{
    if list.len() == 0 {
        list
    } else if list.last().id == id {
        without_prompt(list.drop_last(), id)
    } else {
        without_prompt(list.drop_last(), id).push(list.last())
    }
}

/// The index found by going through `list` is the one `prompt_index` names.
proof fn lemma_prompt_index(list: Seq<PromptView>, id: Seq<char>, n: int)
    requires
        0 <= n <= list.len(),
        forall|j: int| 0 <= j < n ==> (#[trigger] list[j]).id != id,
        n < list.len() ==> list[n].id == id,
    ensures
        prompt_index(list, id) == n,
    decreases n,
{
    if n > 0 {
        let t = list.skip(1);
        assert forall|j: int| 0 <= j < n - 1 implies (#[trigger] t[j]).id != id by {
            assert(t[j] == list[j + 1]);
        }
        lemma_prompt_index(t, id, n - 1);
    }
}

/// The index of the first prompt with the identifier `id`, or the length of
/// `list`.
pub fn find_prompt(list: &Vec<Prompt>, id: &str) -> (n: usize)
    ensures
        n == prompt_index(prompt_views(list@), id@),
        n <= list.len(),
{
    let mut n: usize = 0;
    while n < list.len()
        invariant
            n <= list.len(),
            forall|j: int| 0 <= j < n ==> (#[trigger] prompt_views(list@)[j]).id != id@,
        decreases list.len() - n,
    {
        if same_text(list[n].id.as_str(), id) {
            proof {
                lemma_prompt_index(prompt_views(list@), id@, n as int);
            }
            return n;
        }
        n += 1;
    }
    proof {
        lemma_prompt_index(prompt_views(list@), id@, n as int);
    }
    n
}

impl PromptView {
    /// A prompt made at the time `now`.
    pub open spec fn new(
        id: Seq<char>,
        title: Seq<char>,
        content: Seq<char>,
        tags: Seq<PromptTagView>,
        now: i64,
    ) -> PromptView {
        PromptView { id, title, content, tags, created_at: now, updated_at: now }
    }

    /// The prompt with the title, the content and the tags that are given
    /// put in the place of its own, changed at the time `now`.
    pub open spec fn revised(
        self,
        title: Option<Seq<char>>,
        content: Option<Seq<char>>,
        tags: Option<Seq<PromptTagView>>,
        now: i64,
    ) -> PromptView {
        PromptView {
            id: self.id,
            title: match title {
                Some(t) => t,
                None => self.title,
            },
            content: match content {
                Some(c) => c,
                None => self.content,
            },
            tags: match tags {
                Some(t) => t,
                None => self.tags,
            },
            created_at: self.created_at,
            updated_at: now,
        }
    }
}

/// The view of a title or a content that may be given.
pub open spec fn given_text(text: Option<&str>) -> Option<Seq<char>> {
    match text {
        Some(t) => Some(t@),
        None => None,
    }
}

/// The view of tags that may be given.
pub open spec fn given_tags(tags: Option<Vec<PromptTag>>) -> Option<Seq<PromptTagView>> {
    match tags {
        Some(t) => Some(tag_views(t@)),
        None => None,
    }
}

/// Adds a new prompt to the end of `list` and returns a copy of it. Its
/// identifier is fresh and its times are that of the call.
pub fn add_prompt(list: &mut Vec<Prompt>, title: &str, content: &str, tags: Vec<PromptTag>) -> (r:
    Prompt)
    ensures
        r@ == PromptView::new(r@.id, title@, content@, tag_views(tags@), r@.created_at),
        prompt_views(final(list)@) == prompt_views(old(list)@).push(r@),
{
    let prompt = Prompt {
        id: fresh_id(),
        title: String::from_str(title),
        content: String::from_str(content),
        tags,
        created_at: 0,
        updated_at: 0,
    };
    insert_prompt(list, prompt, current_timestamp())
}

/// Adds `prompt`, with both its times set to `now`, to the end of `list`,
/// and returns a copy of it.
pub fn insert_prompt(list: &mut Vec<Prompt>, prompt: Prompt, now: i64) -> (r: Prompt)
    ensures
        r@ == PromptView::new(prompt@.id, prompt@.title, prompt@.content, prompt@.tags, now),
        prompt_views(final(list)@) == prompt_views(old(list)@).push(r@),
{
    let ghost before = list@;
    let new = Prompt {
        id: prompt.id,
        title: prompt.title,
        content: prompt.content,
        tags: prompt.tags,
        created_at: now,
        updated_at: now,
    };
    let copy = new.clone();
    list.push(new);
    assert(prompt_views(list@) =~= prompt_views(before).push(new@));
    copy
}

/// What revising the prompt `id` of `before` at the time `now` leaves, and
/// returns.
pub open spec fn prompt_revised(
    before: Seq<PromptView>,
    after: Seq<PromptView>,
    id: Seq<char>,
    title: Option<Seq<char>>,
    content: Option<Seq<char>>,
    tags: Option<Seq<PromptTagView>>,
    now: i64,
    r: Result<Prompt, PromptNotFound>,
) -> bool {
    let n = prompt_index(before, id);
    if n < before.len() {
        r matches Ok(p) && p@ == before[n].revised(title, content, tags, now) && after
            == before.update(n, p@)
    } else {
        r is Err && after == before
    }
}

/// Gives the first prompt with the identifier `id` the title, the content
/// and the tags that are given, and the time of the call as its time of
/// change, and returns a copy of it.
pub fn update_prompt(
    list: &mut Vec<Prompt>,
    id: &str,
    title: Option<&str>,
    content: Option<&str>,
    tags: Option<Vec<PromptTag>>,
) -> (r: Result<Prompt, PromptNotFound>)
    ensures
        exists|now: i64|
            prompt_revised(
                prompt_views(old(list)@),
                prompt_views(final(list)@),
                id@,
                given_text(title),
                given_text(content),
                given_tags(tags),
                now,
                r,
            ),
{
    let now = current_timestamp();
    let r = revise_prompt(list, id, title, content, tags, now);
    assert(prompt_revised(
        prompt_views(old(list)@),
        prompt_views(list@),
        id@,
        given_text(title),
        given_text(content),
        given_tags(tags),
        now,
        r,
    ));
    r
}

/// Gives the first prompt with the identifier `id` the title, the content
/// and the tags that are given, and the time of change `now`, and returns a
/// copy of it.
pub fn revise_prompt(
    list: &mut Vec<Prompt>,
    id: &str,
    title: Option<&str>,
    content: Option<&str>,
    tags: Option<Vec<PromptTag>>,
    now: i64,
) -> (r: Result<Prompt, PromptNotFound>)
    ensures
        prompt_revised(
            prompt_views(old(list)@),
            prompt_views(final(list)@),
            id@,
            given_text(title),
            given_text(content),
            given_tags(tags),
            now,
            r,
        ),
{
    let n = find_prompt(list, id);
    if n >= list.len() {
        return Err(PromptNotFound);
    }
    let revised = Prompt {
        id: list[n].id.clone(),
        title: match title {
            Some(t) => String::from_str(t),
            None => list[n].title.clone(),
        },
        content: match content {
            Some(c) => String::from_str(c),
            None => list[n].content.clone(),
        },
        tags: match tags {
            Some(t) => t,
            None => clone_tags(&list[n].tags),
        },
        created_at: list[n].created_at,
        updated_at: now,
    };
    let copy = revised.clone();
    let ghost before = list@;
    list.set(n, revised);
    assert(prompt_views(list@) =~= prompt_views(before).update(n as int, revised@));
    Ok(copy)
}

/// Removes every prompt with the identifier `id`.
pub fn delete_prompt(list: &mut Vec<Prompt>, id: &str)
    ensures
        prompt_views(final(list)@) == without_prompt(prompt_views(old(list)@), id@),
{
    let ghost before = prompt_views(list@);
    let mut i: usize = 0;
    let ghost mut k: int = 0;
    assert(before.take(0) =~= Seq::empty());
    assert(prompt_views(list@).take(0) =~= Seq::empty());
    assert(before.skip(0) =~= before);
    while i < list.len()
        invariant
            0 <= k <= before.len(),
            i <= list.len(),
            list.len() - i == before.len() - k,
            prompt_views(list@).take(i as int) == without_prompt(before.take(k), id@),
            prompt_views(list@).skip(i as int) == before.skip(k),
        decreases list.len() - i,
    {
        let ghost now = prompt_views(list@);
        proof {
            assert(now.skip(i as int)[0] == before.skip(k)[0]);
            assert(before.take(k + 1).drop_last() =~= before.take(k));
            assert(before.take(k + 1).last() == before[k]);
        }
        if same_text(list[i].id.as_str(), id) {
            list.remove(i);
            proof {
                let after = prompt_views(list@);
                assert(after =~= now.remove(i as int));
                assert(after.take(i as int) =~= now.take(i as int));
                assert(after.skip(i as int) =~= now.skip(i as int).skip(1));
                assert(before.skip(k).skip(1) =~= before.skip(k + 1));
            }
        } else {
            proof {
                assert(now.take(i + 1) =~= now.take(i as int).push(now[i as int]));
                assert(now.skip(i + 1) =~= now.skip(i as int).skip(1));
                assert(before.skip(k).skip(1) =~= before.skip(k + 1));
            }
            i += 1;
        }
        proof {
            k = k + 1;
        }
    }
    proof {
        assert(prompt_views(list@).take(i as int) =~= prompt_views(list@));
        assert(before.take(k) =~= before);
    }
}

} // verus!
