//! Tags owned by users and their association rows with items.

use vstd::prelude::*;

use crate::error::CrudError;
use crate::index::index_has;
use crate::items::{Item, ItemType};

verus! {

/// A label owned by one user.
#[derive(Clone, Debug, PartialEq, Eq)]
pub struct Tag {
    pub id: u128,
    pub name: String,
    pub color: String,
    pub owner_id: u128,
}

#[derive(Clone, Debug, PartialEq, Eq)]
pub struct NewTag {
    pub name: String,
    pub color: String,
}

#[derive(Clone, Debug, PartialEq, Eq)]
pub struct UpdateTag {
    pub name: String,
    pub color: String,
}

/// A tag together with the (item id, item kind) pairs it is attached to.
#[derive(Clone, Debug, PartialEq, Eq)]
pub struct TagInfo {
    pub id: u128,
    pub name: String,
    pub color: String,
    pub owner_id: u128,
    pub items: Vec<(u128, ItemType)>,
}

/// An association row linking a tag to an item.
#[derive(Clone, Copy, Debug, PartialEq, Eq, Structural)]
pub struct TagsItem {
    pub tag_id: u128,
    pub item_id: u128,
    pub item_type: ItemType,
}

/// A reference to an item in a request to attach or detach it.
#[derive(Clone, Copy, Debug, PartialEq, Eq, Structural)]
pub struct TagsItemRequest {
    pub id: u128,
    pub item_type: ItemType,
}

/// No two tags share an id.
pub open spec fn tags_unique(tags: Seq<Tag>) -> bool {
    forall|i: int, j: int|
        0 <= i < tags.len() && 0 <= j < tags.len() && i != j ==> (#[trigger] tags[i]).id != (#[trigger] tags[j]).id
}

/// Tags and result after storing a new tag of `owner` under `id`: a taken
/// id is a `Conflict` that changes nothing.
pub open spec fn tag_create_outcome(
    tags: Seq<Tag>,
    tags2: Seq<Tag>,
    r: Result<Tag, CrudError>,
    new: NewTag,
    owner: u128,
    id: u128,
) -> bool {
    if tag_id_used(tags, id) {
        r == Err::<Tag, CrudError>(CrudError::Conflict) && tags2 == tags
    } else {
        let t = Tag { id, name: new.name, color: new.color, owner_id: owner };
        r == Ok::<Tag, CrudError>(t) && tags2 == tags.push(t)
    }
}

pub open spec fn tag_owned(tags: Seq<Tag>, id: u128, owner: u128) -> bool {
    exists|i: int| 0 <= i < tags.len() && #[trigger] tags[i].id == id && tags[i].owner_id == owner
}

pub open spec fn tag_id_used(tags: Seq<Tag>, id: u128) -> bool {
    exists|i: int| 0 <= i < tags.len() && #[trigger] tags[i].id == id
}

pub open spec fn is_first_owned_tag(tags: Seq<Tag>, i: int, id: u128, owner: u128) -> bool {
    &&& 0 <= i < tags.len()
    &&& tags[i].id == id && tags[i].owner_id == owner
    &&& forall|j: int| 0 <= j < i ==> !(#[trigger] tags[j].id == id && tags[j].owner_id == owner)
}

/// The tags of `owner`, in the order they were stored.
pub open spec fn owned_tags(tags: Seq<Tag>, owner: u128) -> Seq<Tag>
    decreases tags.len(),
{
    if tags.len() == 0 {
        Seq::empty()
    } else {
        let rest = owned_tags(tags.drop_last(), owner);
        if tags.last().owner_id == owner {
            rest.push(tags.last())
        } else {
            rest
        }
    }
}

/// The association rows of `tag_id`, in the order they were stored.
pub open spec fn tag_rows(ti: Seq<TagsItem>, tag_id: u128) -> Seq<TagsItem>
    decreases ti.len(),
{
    if ti.len() == 0 {
        Seq::empty()
    } else {
        let rest = tag_rows(ti.drop_last(), tag_id);
        if ti.last().tag_id == tag_id {
            rest.push(ti.last())
        } else {
            rest
        }
    }
}

/// The (item id, item kind) pairs `tag_id` is attached to, in order.
pub open spec fn links_of(ti: Seq<TagsItem>, tag_id: u128) -> Seq<(u128, ItemType)>
    decreases ti.len(),
{
    if ti.len() == 0 {
        Seq::empty()
    } else {
        let rest = links_of(ti.drop_last(), tag_id);
        if ti.last().tag_id == tag_id {
            rest.push((ti.last().item_id, ti.last().item_type))
        } else {
            rest
        }
    }
}

/// The association rows that do not belong to `tag_id`.
pub open spec fn without_tag(ti: Seq<TagsItem>, tag_id: u128) -> Seq<TagsItem>
    decreases ti.len(),
{
    if ti.len() == 0 {
        Seq::empty()
    } else {
        let rest = without_tag(ti.drop_last(), tag_id);
        if ti.last().tag_id == tag_id {
            rest
        } else {
            rest.push(ti.last())
        }
    }
}

pub open spec fn requested(reqs: Seq<TagsItemRequest>, item_id: u128, item_type: ItemType) -> bool {
    exists|k: int| 0 <= k < reqs.len() && #[trigger] reqs[k].id == item_id && reqs[k].item_type == item_type
}

/// The association rows left after detaching `reqs` from `tag_id`.
pub open spec fn kept_links(ti: Seq<TagsItem>, tag_id: u128, reqs: Seq<TagsItemRequest>) -> Seq<TagsItem>
    decreases ti.len(),
{
    if ti.len() == 0 {
        Seq::empty()
    } else {
        let rest = kept_links(ti.drop_last(), tag_id, reqs);
        let last = ti.last();
        if last.tag_id == tag_id && requested(reqs, last.item_id, last.item_type) {
            rest
        } else {
            rest.push(last)
        }
    }
}

pub open spec fn link_for(tag_id: u128, req: TagsItemRequest) -> TagsItem {
    TagsItem { tag_id, item_id: req.id, item_type: req.item_type }
}

/// The association rows that attaching `reqs` to `tag_id` adds.
pub open spec fn links_for(tag_id: u128, reqs: Seq<TagsItemRequest>) -> Seq<TagsItem> {
    reqs.map_values(|req: TagsItemRequest| link_for(tag_id, req))
}

pub open spec fn link_exists(ti: Seq<TagsItem>, l: TagsItem) -> bool {
    exists|j: int| 0 <= j < ti.len() && #[trigger] ti[j] == l
}

/// Every requested item is indexed and belongs to `owner`.
pub open spec fn all_owned(items: Seq<Item>, reqs: Seq<TagsItemRequest>, owner: u128) -> bool {
    forall|k: int| 0 <= k < reqs.len() ==> index_has(items, #[trigger] reqs[k].id, reqs[k].item_type, owner)
}

/// Some requested link is already stored, or requested twice.
pub open spec fn any_duplicate(ti: Seq<TagsItem>, tag_id: u128, reqs: Seq<TagsItemRequest>) -> bool {
    ||| exists|k: int| 0 <= k < reqs.len() && link_exists(ti, link_for(tag_id, #[trigger] reqs[k]))
    ||| exists|k: int, m: int| 0 <= k < m < reqs.len() && #[trigger] reqs[k] == #[trigger] reqs[m]
}

/// Detaching every item of `tag_id` that a row of it names leaves `tag_id`
/// with no links.
pub proof fn lemma_detach_all(s: Seq<TagsItem>, tag_id: u128, reqs: Seq<TagsItemRequest>)
    requires
        forall|i: int|
            0 <= i < s.len() && (#[trigger] s[i]).tag_id == tag_id ==> requested(reqs, s[i].item_id, s[i].item_type),
    ensures
        links_of(kept_links(s, tag_id, reqs), tag_id) == Seq::<(u128, ItemType)>::empty(),
    decreases s.len(),
{
    if s.len() > 0 {
        let rest = s.drop_last();
        assert forall|i: int|
            0 <= i < rest.len() && (#[trigger] rest[i]).tag_id == tag_id implies requested(
            reqs,
            rest[i].item_id,
            rest[i].item_type,
        ) by {
            assert(rest[i] == s[i]);
        }
        lemma_detach_all(rest, tag_id, reqs);
        let last = s.last();
        assert(s[s.len() - 1] == last);
        let kept = kept_links(rest, tag_id, reqs);
        if !(last.tag_id == tag_id && requested(reqs, last.item_id, last.item_type)) {
            assert(kept.push(last).drop_last() =~= kept);
        }
    }
}

/// Attaching items to a tag that had no links creates a row for each, and
/// detaching the same items again leaves the tag with no links.
pub proof fn lemma_attach_then_detach(ti: Seq<TagsItem>, tag_id: u128, reqs: Seq<TagsItemRequest>)
    requires
        forall|i: int| 0 <= i < ti.len() ==> (#[trigger] ti[i]).tag_id != tag_id,
    ensures
        forall|k: int|
            0 <= k < reqs.len() ==> link_exists(ti + links_for(tag_id, reqs), link_for(tag_id, #[trigger] reqs[k])),
        links_of(kept_links(ti + links_for(tag_id, reqs), tag_id, reqs), tag_id) == Seq::<
            (u128, ItemType),
        >::empty(),
{
    let s = ti + links_for(tag_id, reqs);
    assert forall|k: int| 0 <= k < reqs.len() implies link_exists(s, link_for(tag_id, #[trigger] reqs[k])) by {
        assert(s[ti.len() + k] == link_for(tag_id, reqs[k]));
    }
    assert forall|i: int|
        0 <= i < s.len() && (#[trigger] s[i]).tag_id == tag_id implies requested(reqs, s[i].item_id, s[i].item_type) by {
        if i < ti.len() {
            assert(s[i] == ti[i]);
        } else {
            let k = i - ti.len();
            assert(s[i] == link_for(tag_id, reqs[k]));
            assert(reqs[k].id == s[i].item_id && reqs[k].item_type == s[i].item_type);
        }
    }
    lemma_detach_all(s, tag_id, reqs);
}

pub open spec fn info_matches(info: TagInfo, t: Tag, ti: Seq<TagsItem>) -> bool {
    &&& info.id == t.id
    &&& info.name == t.name
    &&& info.color == t.color
    &&& info.owner_id == t.owner_id
    &&& info.items@ == links_of(ti, t.id)
}

fn tag_position(tags: &Vec<Tag>, id: u128, owner: u128) -> (r: Option<usize>)
    ensures
        r matches Some(i) ==> is_first_owned_tag(tags@, i as int, id, owner),
        r is None ==> !tag_owned(tags@, id, owner),
{
    let mut i: usize = 0;
    while i < tags.len()
        invariant
            i <= tags@.len(),
            forall|j: int| 0 <= j < i ==> !(#[trigger] tags@[j].id == id && tags@[j].owner_id == owner),
        decreases tags@.len() - i,
    {
        if tags[i].id == id && tags[i].owner_id == owner {
            return Some(i);
        }
        i += 1;
    }
    None
}

fn tag_id_in_use(tags: &Vec<Tag>, id: u128) -> (r: bool)
    ensures
        r == tag_id_used(tags@, id),
{
    let mut i: usize = 0;
    while i < tags.len()
        invariant
            i <= tags@.len(),
            forall|j: int| 0 <= j < i ==> #[trigger] tags@[j].id != id,
        decreases tags@.len() - i,
    {
        if tags[i].id == id {
            return true;
        }
        i += 1;
    }
    false
}

impl Tag {
    /// A field-by-field copy.
    pub fn duplicate(&self) -> (r: Tag)
        ensures
            r == *self,
    {
        Tag { id: self.id, name: self.name.clone(), color: self.color.clone(), owner_id: self.owner_id }
    }

    /// The tag built from a payload for `owner` under `id`.
    pub fn from_partial(new: NewTag, owner: u128, id: u128) -> (r: Tag)
        ensures
            r == (Tag { id, name: new.name, color: new.color, owner_id: owner }),
    {
        Tag { id, name: new.name, color: new.color, owner_id: owner }
    }

    /// Stores a new tag of `owner` under `id`. Fails with `Conflict`,
    /// changing nothing, if the id is taken.
    pub fn create(tags: &mut Vec<Tag>, new: NewTag, owner: u128, id: u128) -> (r: Result<Tag, CrudError>)
        ensures
            tag_create_outcome(old(tags)@, final(tags)@, r, new, owner, id),
            tags_unique(old(tags)@) ==> tags_unique(final(tags)@),
    {
        if tag_id_in_use(tags, id) {
            return Err(CrudError::Conflict);
        }
        let t = Tag::from_partial(new, owner, id);
        tags.push(t.duplicate());
        proof {
            if tags_unique(old(tags)@) {
                assert forall|i: int, j: int|
                    0 <= i < tags@.len() && 0 <= j < tags@.len() && i != j implies (#[trigger] tags@[i]).id
                    != (#[trigger] tags@[j]).id by {
                    if i < old(tags)@.len() {
                        assert(tags@[i] == old(tags)@[i]);
                    }
                    if j < old(tags)@.len() {
                        assert(tags@[j] == old(tags)@[j]);
                    }
                }
            }
        }
        Ok(t)
    }

    /// Renames and recolors the tag `id` of `owner`. Fails with `NotFound`,
    /// changing nothing, if `owner` has no such tag.
    pub fn update(tags: &mut Vec<Tag>, id: u128, upd: UpdateTag, owner: u128) -> (r: Result<Tag, CrudError>)
        ensures
            !tag_owned(old(tags)@, id, owner) ==> r == Err::<Tag, CrudError>(CrudError::NotFound)
                && final(tags)@ == old(tags)@,
            tag_owned(old(tags)@, id, owner) ==> exists|i: int|
                {
                    let t = Tag { id, name: upd.name, color: upd.color, owner_id: owner };
                    &&& #[trigger] is_first_owned_tag(old(tags)@, i, id, owner)
                    &&& r == Ok::<Tag, CrudError>(t)
                    &&& final(tags)@ == old(tags)@.update(i, t)
                },
            tags_unique(old(tags)@) ==> tags_unique(final(tags)@),
    {
        match tag_position(tags, id, owner) {
            Some(i) => {
                let t = Tag { id, name: upd.name, color: upd.color, owner_id: owner };
                tags.set(i, t.duplicate());
                assert(is_first_owned_tag(old(tags)@, i as int, id, owner));
                proof {
                    if tags_unique(old(tags)@) {
                        assert forall|a: int, b: int|
                            0 <= a < tags@.len() && 0 <= b < tags@.len() && a != b implies (#[trigger] tags@[a]).id
                            != (#[trigger] tags@[b]).id by {
                            assert(tags@[a].id == old(tags)@[a].id && tags@[b].id == old(tags)@[b].id);
                        }
                    }
                }
                Ok(t)
            },
            None => Err(CrudError::NotFound),
        }
    }

    /// Deletes the tag `id` of `owner` and every association row of it.
    /// Fails with `NotFound`, changing nothing, if `owner` has no such tag.
    pub fn delete(tags: &mut Vec<Tag>, ti: &mut Vec<TagsItem>, id: u128, owner: u128) -> (r: Result<
        (),
        CrudError,
    >)
        ensures
            !tag_owned(old(tags)@, id, owner) ==> r == Err::<(), CrudError>(CrudError::NotFound)
                && final(tags)@ == old(tags)@ && final(ti)@ == old(ti)@,
            tag_owned(old(tags)@, id, owner) ==> r is Ok && final(ti)@ == without_tag(old(ti)@, id)
                && exists|i: int|
                is_first_owned_tag(old(tags)@, i, id, owner) && final(tags)@ == old(tags)@.remove(i),
            tags_unique(old(tags)@) ==> tags_unique(final(tags)@),
    {
        match tag_position(tags, id, owner) {
            Some(i) => {
                let _ = tags.remove(i);
                assert(is_first_owned_tag(old(tags)@, i as int, id, owner));
                proof {
                    if tags_unique(old(tags)@) {
                        assert forall|a: int, b: int|
                            0 <= a < tags@.len() && 0 <= b < tags@.len() && a != b implies (#[trigger] tags@[a]).id
                            != (#[trigger] tags@[b]).id by {
                            let x = if a < i { a } else { a + 1 };
                            let y = if b < i { b } else { b + 1 };
                            assert(tags@[a] == old(tags)@[x] && tags@[b] == old(tags)@[y]);
                        }
                    }
                }
                let mut kept: Vec<TagsItem> = Vec::new();
                let mut k: usize = 0;
                while k < ti.len()
                    invariant
                        k <= ti@.len(),
                        ti@ == old(ti)@,
                        kept@ == without_tag(ti@.subrange(0, k as int), id),
                    decreases ti@.len() - k,
                {
                    proof {
                        assert(ti@.subrange(0, k as int + 1).drop_last() =~= ti@.subrange(0, k as int));
                    }
                    if ti[k].tag_id != id {
                        kept.push(ti[k]);
                    }
                    k += 1;
                }
                proof {
                    assert(ti@.subrange(0, ti@.len() as int) =~= ti@);
                }
                *ti = kept;
                Ok(())
            },
            None => Err(CrudError::NotFound),
        }
    }

    /// The tags of `owner`, in the order they were stored, each with the
    /// items it is attached to.
    pub fn find_all(tags: &Vec<Tag>, ti: &Vec<TagsItem>, owner: u128) -> (r: Vec<TagInfo>)
        ensures
            r@.len() == owned_tags(tags@, owner).len(),
            forall|k: int|
                0 <= k < r@.len() ==> info_matches(#[trigger] r@[k], owned_tags(tags@, owner)[k], ti@),
    {
        let mut out: Vec<TagInfo> = Vec::new();
        let mut i: usize = 0;
        while i < tags.len()
            invariant
                i <= tags@.len(),
                out@.len() == owned_tags(tags@.subrange(0, i as int), owner).len(),
                forall|k: int|
                    0 <= k < out@.len() ==> info_matches(
                        #[trigger] out@[k],
                        owned_tags(tags@.subrange(0, i as int), owner)[k],
                        ti@,
                    ),
            decreases tags@.len() - i,
        {
            proof {
                assert(tags@.subrange(0, i as int + 1).drop_last() =~= tags@.subrange(0, i as int));
            }
            if tags[i].owner_id == owner {
                let t = &tags[i];
                let links = TagsItem::links(ti, t.id);
                out.push(
                    TagInfo {
                        id: t.id,
                        name: t.name.clone(),
                        color: t.color.clone(),
                        owner_id: t.owner_id,
                        items: links,
                    },
                );
            }
            i += 1;
        }
        proof {
            assert(tags@.subrange(0, tags@.len() as int) =~= tags@);
        }
        out
    }
}

fn is_requested(reqs: &Vec<TagsItemRequest>, item_id: u128, item_type: ItemType) -> (r: bool)
    ensures
        r == requested(reqs@, item_id, item_type),
{
    let mut k: usize = 0;
    while k < reqs.len()
        invariant
            k <= reqs@.len(),
            forall|j: int| 0 <= j < k ==> !(#[trigger] reqs@[j].id == item_id && reqs@[j].item_type == item_type),
        decreases reqs@.len() - k,
    {
        if reqs[k].id == item_id && reqs[k].item_type == item_type {
            return true;
        }
        k += 1;
    }
    false
}

fn link_stored(ti: &Vec<TagsItem>, l: TagsItem) -> (r: bool)
    ensures
        r == link_exists(ti@, l),
{
    let mut j: usize = 0;
    while j < ti.len()
        invariant
            j <= ti@.len(),
            forall|m: int| 0 <= m < j ==> #[trigger] ti@[m] != l,
        decreases ti@.len() - j,
    {
        if ti[j] == l {
            return true;
        }
        j += 1;
    }
    false
}

impl TagsItem {
    /// The association rows of `tag_id`, in the order they were stored.
    pub fn find_all(ti: &Vec<TagsItem>, tag_id: u128) -> (r: Vec<TagsItem>)
        ensures
            r@ == tag_rows(ti@, tag_id),
    {
        let mut out: Vec<TagsItem> = Vec::new();
        let mut k: usize = 0;
        while k < ti.len()
            invariant
                k <= ti@.len(),
                out@ == tag_rows(ti@.subrange(0, k as int), tag_id),
            decreases ti@.len() - k,
        {
            proof {
                assert(ti@.subrange(0, k as int + 1).drop_last() =~= ti@.subrange(0, k as int));
            }
            if ti[k].tag_id == tag_id {
                out.push(ti[k]);
            }
            k += 1;
        }
        proof {
            assert(ti@.subrange(0, ti@.len() as int) =~= ti@);
        }
        out
    }

    /// The (item id, item kind) pairs `tag_id` is attached to, in order.
    pub fn links(ti: &Vec<TagsItem>, tag_id: u128) -> (r: Vec<(u128, ItemType)>)
        ensures
            r@ == links_of(ti@, tag_id),
    {
        let mut out: Vec<(u128, ItemType)> = Vec::new();
        let mut k: usize = 0;
        while k < ti.len()
            invariant
                k <= ti@.len(),
                out@ == links_of(ti@.subrange(0, k as int), tag_id),
            decreases ti@.len() - k,
        {
            proof {
                assert(ti@.subrange(0, k as int + 1).drop_last() =~= ti@.subrange(0, k as int));
            }
            if ti[k].tag_id == tag_id {
                out.push((ti[k].item_id, ti[k].item_type));
            }
            k += 1;
        }
        proof {
            assert(ti@.subrange(0, ti@.len() as int) =~= ti@);
        }
        out
    }
}

fn has_repeated_request(reqs: &Vec<TagsItemRequest>) -> (r: bool)
    ensures
        r == exists|k: int, m: int| 0 <= k < m < reqs@.len() && #[trigger] reqs@[k] == #[trigger] reqs@[m],
{
    let mut k: usize = 0;
    while k < reqs.len()
        invariant
            k <= reqs@.len(),
            forall|a: int, b: int| 0 <= a < k && a < b < reqs@.len() ==> #[trigger] reqs@[a] != #[trigger] reqs@[b],
        decreases reqs@.len() - k,
    {
        let mut m: usize = k + 1;
        while m < reqs.len()
            invariant
                k < reqs@.len(),
                k + 1 <= m <= reqs@.len(),
                forall|a: int, b: int| 0 <= a < k && a < b < reqs@.len() ==> #[trigger] reqs@[a] != #[trigger] reqs@[b],
                forall|b: int| k < b < m ==> reqs@[k as int] != #[trigger] reqs@[b],
            decreases reqs@.len() - m,
        {
            if reqs[k] == reqs[m] {
                return true;
            }
            m += 1;
        }
        k += 1;
    }
    false
}

impl TagsItem {
    /// Attaches the requested items to the tag `tag_id` of `caller`, all or
    /// none, and returns how many links were added. Fails with `NotFound` if
    /// `caller` has no such tag or does not own every requested item, with
    /// `Conflict` if a link already exists or is requested twice; nothing
    /// changes then.
    pub fn add_items(
        tags: &Vec<Tag>,
        items: &Vec<Item>,
        ti: &mut Vec<TagsItem>,
        tag_id: u128,
        reqs: &Vec<TagsItemRequest>,
        caller: u128,
    ) -> (r: Result<usize, CrudError>)
        ensures
            !tag_owned(tags@, tag_id, caller) || !all_owned(items@, reqs@, caller) ==> r == Err::<
                usize,
                CrudError,
            >(CrudError::NotFound) && final(ti)@ == old(ti)@,
            tag_owned(tags@, tag_id, caller) && all_owned(items@, reqs@, caller) && any_duplicate(
                old(ti)@,
                tag_id,
                reqs@,
            ) ==> r == Err::<usize, CrudError>(CrudError::Conflict) && final(ti)@ == old(ti)@,
            tag_owned(tags@, tag_id, caller) && all_owned(items@, reqs@, caller) && !any_duplicate(
                old(ti)@,
                tag_id,
                reqs@,
            ) ==> r == Ok::<usize, CrudError>(reqs@.len() as usize) && final(ti)@ == old(ti)@ + links_for(
                tag_id,
                reqs@,
            ),
    {
        match tag_position(tags, tag_id, caller) {
            None => return Err(CrudError::NotFound),
            Some(i) => {
                assert(tags@[i as int].id == tag_id && tags@[i as int].owner_id == caller);
            },
        }
        let mut k: usize = 0;
        while k < reqs.len()
            invariant
                k <= reqs@.len(),
                tag_owned(tags@, tag_id, caller),
                forall|j: int| 0 <= j < k ==> index_has(items@, #[trigger] reqs@[j].id, reqs@[j].item_type, caller),
            decreases reqs@.len() - k,
        {
            if !Item::has_owner(items, reqs[k].id, reqs[k].item_type, caller) {
                return Err(CrudError::NotFound);
            }
            k += 1;
        }
        let mut k: usize = 0;
        while k < reqs.len()
            invariant
                k <= reqs@.len(),
                tag_owned(tags@, tag_id, caller),
                all_owned(items@, reqs@, caller),
                forall|j: int| 0 <= j < k ==> !link_exists(ti@, link_for(tag_id, #[trigger] reqs@[j])),
            decreases reqs@.len() - k,
        {
            if link_stored(ti, TagsItem { tag_id, item_id: reqs[k].id, item_type: reqs[k].item_type }) {
                return Err(CrudError::Conflict);
            }
            k += 1;
        }
        if has_repeated_request(reqs) {
            return Err(CrudError::Conflict);
        }
        let mut k: usize = 0;
        while k < reqs.len()
            invariant
                k <= reqs@.len(),
                ti@ == old(ti)@ + links_for(tag_id, reqs@.subrange(0, k as int)),
            decreases reqs@.len() - k,
        {
            ti.push(TagsItem { tag_id, item_id: reqs[k].id, item_type: reqs[k].item_type });
            proof {
                assert(links_for(tag_id, reqs@.subrange(0, k as int + 1)) =~= links_for(
                    tag_id,
                    reqs@.subrange(0, k as int),
                ).push(link_for(tag_id, reqs@[k as int])));
            }
            k += 1;
        }
        proof {
            assert(reqs@.subrange(0, reqs@.len() as int) =~= reqs@);
        }
        Ok(reqs.len())
    }

    /// Detaches the requested items from the tag `tag_id` of `caller` and
    /// returns how many links were removed. Fails with `NotFound`, changing
    /// nothing, if `caller` has no such tag.
    pub fn delete_items(
        tags: &Vec<Tag>,
        ti: &mut Vec<TagsItem>,
        tag_id: u128,
        reqs: &Vec<TagsItemRequest>,
        caller: u128,
    ) -> (r: Result<usize, CrudError>)
        ensures
            !tag_owned(tags@, tag_id, caller) ==> r == Err::<usize, CrudError>(CrudError::NotFound)
                && final(ti)@ == old(ti)@,
            tag_owned(tags@, tag_id, caller) ==> final(ti)@ == kept_links(old(ti)@, tag_id, reqs@)
                && r == Ok::<usize, CrudError>((old(ti)@.len() - final(ti)@.len()) as usize),
    {
        if tag_position(tags, tag_id, caller).is_none() {
            return Err(CrudError::NotFound);
        }
        let mut kept: Vec<TagsItem> = Vec::new();
        let mut removed: usize = 0;
        let mut k: usize = 0;
        while k < ti.len()
            invariant
                k <= ti@.len(),
                ti@ == old(ti)@,
                kept@ == kept_links(ti@.subrange(0, k as int), tag_id, reqs@),
                kept@.len() + removed == k,
            decreases ti@.len() - k,
        {
            proof {
                assert(ti@.subrange(0, k as int + 1).drop_last() =~= ti@.subrange(0, k as int));
            }
            let row = ti[k];
            if row.tag_id == tag_id && is_requested(reqs, row.item_id, row.item_type) {
                removed += 1;
            } else {
                kept.push(row);
            }
            k += 1;
        }
        proof {
            assert(ti@.subrange(0, ti@.len() as int) =~= ti@);
        }
        *ti = kept;
        Ok(removed)
    }
}

} // verus!
