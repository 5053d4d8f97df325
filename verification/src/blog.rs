//! A blog: one record per authority, and a chain of posts. Each post lives
//! at the address that the label `post`, the blog's address and the start of
//! its title derive, and points at the post before it.

use vstd::prelude::*;
use vstd::slice::slice_to_vec;
use vstd::utf8::encode_utf8;
use substring::Substring;
use crate::error::Error;
use crate::guard::{authorized, check};
use crate::identity::{zero_bytes, Identity, Signer, IDENTITY_BYTES};
use crate::request::{
    bound_spec, has_signed, identity_seed, require_bound, require_signature, Context,
    DISCRIMINATOR_BYTES, NUMBER_BYTES,
};
use crate::store::{with_payload, Payload, StateRecord, Store};

verus! {

/// What a blog's record holds.
#[derive(Clone, Copy, Debug, PartialEq, Eq)]
pub struct Blog {
    /// Who may post.
    pub authority: Identity,
    /// The address of the newest post, or the sentinel while there is none.
    pub latest: Identity,
    /// How many posts the blog has.
    pub posts: u64,
}

/// What a post's record holds.
#[derive(Debug, PartialEq, Eq)]
pub struct Post {
    pub title: String,
    pub content: String,
    /// When the post was made, in seconds of the host's clock.
    pub timestamp: i64,
    /// The address of the blog.
    pub blog: Identity,
    /// The address of the post before this one, or the sentinel.
    pub previous: Identity,
}

/// The identities of a request that sets a blog up.
pub struct Initialize {
    /// Who will post.
    pub authority: Signer,
    /// The address of the blog's record.
    pub blog: Identity,
}

/// The identities of a request that adds a post.
pub struct CreatePost {
    /// Who posts.
    pub authority: Signer,
    /// The address of the blog's record.
    pub blog: Identity,
    /// The address of the new post's record.
    pub post: Identity,
}

/// Bytes that a blog's record needs: the tag, two identities and a count.
pub const BLOG_SPACE: usize = DISCRIMINATOR_BYTES + 2 * IDENTITY_BYTES + NUMBER_BYTES;

/// Bytes that the length of a text takes in a record.
pub const LENGTH_BYTES: usize = 4;

/// Bytes that a post's record needs besides its title and content: the tag,
/// the two lengths, the time and two identities.
pub const POST_FIXED_BYTES: usize = DISCRIMINATOR_BYTES + 2 * LENGTH_BYTES + NUMBER_BYTES + 2
    * IDENTITY_BYTES;

/// Bytes reserved for a post's record besides its title and content.
pub const POST_BASE_SPACE: usize = 128;

/// How many characters of a title go into the address of its post.
pub const TITLE_SEED_CHARS: usize = 32;

/// The label of a blog's address: the bytes of `blog`.
pub open spec fn blog_label() -> Seq<u8> {
    seq![98u8, 108u8, 111u8, 103u8]
}

/// The label of a post's address: the bytes of `post`.
pub open spec fn post_label() -> Seq<u8> {
    seq![112u8, 111u8, 115u8, 116u8]
}

/// The characters of `text` from `start` up to `end`, as far as there are any.
pub open spec fn char_range(text: Seq<char>, start: int, end: int) -> Seq<char> {
    if end <= start {
        Seq::empty()
    } else if start >= text.len() {
        Seq::empty()
    } else if end >= text.len() {
        text.subrange(start, text.len() as int)
    } else {
        text.subrange(start, end)
    }
}

/// The seed that a title gives: its first characters, encoded.
pub open spec fn title_seed_spec(title: Seq<char>) -> Seq<u8> {
    encode_utf8(char_range(title, 0, TITLE_SEED_CHARS as int))
}

/// The seeds of a post's address: the blog's address, then the title's seed.
pub open spec fn post_seeds(blog: Seq<u8>, title: Seq<char>) -> Seq<Seq<u8>> {
    seq![blog, title_seed_spec(title)]
}

impl Payload for Blog {
    open spec fn footprint(&self) -> nat {
        BLOG_SPACE as nat
    }

    fn fits(&self, capacity: usize) -> (b: bool) {
        BLOG_SPACE <= capacity
    }
}

impl Payload for Post {
    open spec fn footprint(&self) -> nat {
        (POST_FIXED_BYTES + encode_utf8(self.title@).len() + encode_utf8(self.content@).len()) as nat
    }

    fn fits(&self, capacity: usize) -> (b: bool) {
        let title = self.title.as_str().as_bytes().len();
        let content = self.content.as_str().as_bytes().len();
        match POST_FIXED_BYTES.checked_add(title) {
            None => false,
            Some(partial) => match partial.checked_add(content) {
                None => false,
                Some(needed) => needed <= capacity,
            },
        }
    }
}

/// Calls `substring::Substring::substring` on a `str`.
///
/// Claims: the result holds the characters of `text` from index
/// `start_index` up to index `end_index`, counted in characters, cut off
/// at the end of `text`; it is empty when `end_index` is not greater than
/// `start_index`.
#[verifier::external_body]
fn substring<'a>(text: &'a str, start_index: usize, end_index: usize) -> (part: &'a str)
    ensures
        part@ == char_range(text@, start_index as int, end_index as int),
{
    Substring::substring(text, start_index, end_index)
}

/// The label of a blog's address.
pub fn blog_label_bytes() -> (label: Vec<u8>)
    ensures
        label@ == blog_label(),
{
    let label: Vec<u8> = vec![98u8, 108u8, 111u8, 103u8];
    assert(label@ =~= blog_label());
    label
}

/// The label of a post's address.
pub fn post_label_bytes() -> (label: Vec<u8>)
    ensures
        label@ == post_label(),
{
    let label: Vec<u8> = vec![112u8, 111u8, 115u8, 116u8];
    assert(label@ =~= post_label());
    label
}

/// The seed that a title gives to the address of its post.
pub fn title_seed(title: &str) -> (seed: Vec<u8>)
    ensures
        seed@ == title_seed_spec(title@),
{
    slice_to_vec(substring(title, 0, TITLE_SEED_CHARS).as_bytes())
}

/// The bytes to reserve for a post with this title and content, if the
/// number can be had.
pub fn post_space(title: &str, content: &str) -> (space: Option<usize>)
    ensures
        space == post_space_spec(title@, content@),
{
    match POST_BASE_SPACE.checked_add(title.as_bytes().len()) {
        None => None,
        Some(partial) => partial.checked_add(content.as_bytes().len()),
    }
}

/// The bytes to reserve for a post: the base, and the encoded title and content.
pub open spec fn post_space_spec(title: Seq<char>, content: Seq<char>) -> Option<usize> {
    let space = POST_BASE_SPACE + encode_utf8(title).len() + encode_utf8(content).len();
    if space <= usize::MAX {
        Some(space as usize)
    } else {
        None
    }
}

/// What admitting a request to set a blog up comes to.
pub open spec fn init_blog_spec(store: Store<Blog>, ctx: Context<Initialize>) -> Result<(), Error> {
    if !has_signed(ctx.accounts.authority) {
        Err(Error::Unauthorized)
    } else {
        match bound_spec(
            ctx.program_id@,
            blog_label(),
            seq![ctx.accounts.authority.key@],
            ctx.accounts.blog@,
        ) {
            Err(e) => Err(e),
            Ok(_) => if store.contains(ctx.accounts.blog@) {
                Err(Error::AlreadyExists)
            } else {
                Ok(())
            },
        }
    }
}

/// What a request to add a post comes to, before anything is changed.
pub open spec fn create_post_spec(
    blogs: Store<Blog>,
    posts: Store<Post>,
    ctx: Context<CreatePost>,
    title: Seq<char>,
    content: Seq<char>,
) -> Result<(), Error> {
    if !blogs.contains(ctx.accounts.blog@) || blogs.record_at(ctx.accounts.blog@).owner_component@
        != ctx.program_id@ {
        Err(Error::NotFound)
    } else if !authorized(blogs.record_at(ctx.accounts.blog@), ctx.accounts.authority, None) {
        Err(Error::Unauthorized)
    } else {
        match bound_spec(
            ctx.program_id@,
            post_label(),
            post_seeds(ctx.accounts.blog@, title),
            ctx.accounts.post@,
        ) {
            Err(e) => Err(e),
            Ok(_) => if post_space_spec(title, content) is None {
                Err(Error::InsufficientCapacity)
            } else if blogs.record_at(ctx.accounts.blog@).payload.posts == u64::MAX {
                Err(Error::ArithmeticOverflow)
            } else if posts.contains(ctx.accounts.post@) {
                Err(Error::AlreadyExists)
            } else {
                Ok(())
            },
        }
    }
}

/// The addresses of the posts of a chain, newest first: from `from`, along
/// `previous`, until the sentinel or an address without a post, and for at
/// most `fuel` posts.
pub open spec fn chain_spec(posts: Store<Post>, from: Seq<u8>, fuel: nat) -> Seq<Seq<u8>>
    decreases fuel,
{
    if fuel == 0 || from == zero_bytes() || !posts.contains(from) {
        Seq::empty()
    } else {
        seq![from] + chain_spec(posts, posts.record_at(from).payload.previous@, (fuel - 1) as nat)
    }
}

/// Whether every post points at the sentinel or at a post of the store.
pub open spec fn chains_closed(posts: Store<Post>) -> bool {
    forall|a: Seq<u8>|
        #![trigger posts.record_at(a)]
        posts.contains(a) ==> posts.record_at(a).payload.previous@ == zero_bytes()
            || posts.contains(posts.record_at(a).payload.previous@)
}

/// A post added to a store leaves the chains of the store as they were.
pub proof fn lemma_chain_kept(
    before: Store<Post>,
    after: Store<Post>,
    address: Seq<u8>,
    record: StateRecord<Post>,
    from: Seq<u8>,
    fuel: nat,
)
    requires
        before.wf(),
        chains_closed(before),
        !before.contains(address),
        after.addresses() == before.addresses().push(address),
        after.records() == before.records().push(record),
        from == zero_bytes() || before.contains(from),
    ensures
        chain_spec(after, from, fuel) == chain_spec(before, from, fuel),
    decreases fuel,
{
    before.lemma_created(after, address, record);
    if fuel != 0 && from != zero_bytes() {
        assert(after@.dom().contains(from));
        assert(after@[from] == before@[from]);
        assert(after.record_at(from) == before.record_at(from));
        lemma_chain_kept(
            before,
            after,
            address,
            record,
            before.record_at(from).payload.previous@,
            (fuel - 1) as nat,
        );
    }
}

/// Chaining: a new post that points at the newest post of a chain heads
/// that chain. The walk from the new post visits it first and then the
/// posts of the old chain, in their old order; and the chains stay closed.
pub proof fn lemma_post_heads_chain(
    before: Store<Post>,
    after: Store<Post>,
    address: Seq<u8>,
    record: StateRecord<Post>,
    fuel: nat,
)
    requires
        before.wf(),
        chains_closed(before),
        !before.contains(address),
        address != zero_bytes(),
        after.addresses() == before.addresses().push(address),
        after.records() == before.records().push(record),
        record.payload.previous@ == zero_bytes() || before.contains(record.payload.previous@),
    ensures
        chain_spec(after, address, fuel + 1) == seq![address] + chain_spec(
            before,
            record.payload.previous@,
            fuel,
        ),
        !chain_spec(before, record.payload.previous@, fuel).contains(address),
        chains_closed(after),
{
    before.lemma_created(after, address, record);
    assert(after@.dom().contains(address));
    assert(after@[address] == record);
    assert(after.record_at(address) == record);
    lemma_chain_kept(before, after, address, record, record.payload.previous@, fuel);
    lemma_chain_within(before, record.payload.previous@, fuel);
    assert forall|a: Seq<u8>| after.contains(a) implies #[trigger] after.record_at(
        a,
    ).payload.previous@ == zero_bytes() || after.contains(
        after.record_at(a).payload.previous@,
    ) by {
        assert(after@.dom().contains(a));
        if a != address {
            assert(before@.dom().contains(a));
            assert(after@[a] == before@[a]);
            assert(after.record_at(a) == before.record_at(a));
            let previous = before.record_at(a).payload.previous@;
            if previous != zero_bytes() {
                assert(before@.dom().contains(previous));
                assert(after@.dom().contains(previous));
            }
        } else {
            let previous = record.payload.previous@;
            if previous != zero_bytes() {
                assert(before@.dom().contains(previous));
                assert(after@.dom().contains(previous));
            }
        }
    }
}

/// A walk visits posts of the store only.
pub proof fn lemma_chain_within(posts: Store<Post>, from: Seq<u8>, fuel: nat)
    ensures
        forall|i: int|
            0 <= i < chain_spec(posts, from, fuel).len() ==> posts.contains(
                #[trigger] chain_spec(posts, from, fuel)[i],
            ),
    decreases fuel,
{
    if fuel != 0 && from != zero_bytes() && posts.contains(from) {
        let previous = posts.record_at(from).payload.previous@;
        lemma_chain_within(posts, previous, (fuel - 1) as nat);
        assert forall|i: int| 0 <= i < chain_spec(posts, from, fuel).len() implies posts.contains(
            #[trigger] chain_spec(posts, from, fuel)[i],
        ) by {
            if i > 0 {
                assert(chain_spec(posts, from, fuel)[i] == chain_spec(
                    posts,
                    previous,
                    (fuel - 1) as nat,
                )[i - 1]);
            }
        }
    }
}

/// The byte sequences of a list of identities.
pub open spec fn ids(list: Seq<Identity>) -> Seq<Seq<u8>> {
    Seq::new(list.len(), |i: int| list[i]@)
}

/// Sets a blog up for the authority that signed, with no posts.
///
/// Fails with `Unauthorized` when the authority did not sign or the address
/// is not the one derived for it, with `DerivationExhausted` when nothing
/// derives, and with `AlreadyExists` when the blog is set up already.
pub fn init_blog(store: &mut Store<Blog>, ctx: &Context<Initialize>) -> (r: Result<(), Error>)
    requires
        old(store).wf(),
    ensures
        final(store).wf(),
        r == init_blog_spec(*old(store), *ctx),
        r is Ok ==> {
            &&& final(store).addresses() == old(store).addresses().push(ctx.accounts.blog@)
            &&& final(store).records().len() == old(store).records().len() + 1
            &&& final(store).records().last().owner_component@ == ctx.program_id@
            &&& final(store).records().last().authority@ == ctx.accounts.authority.key@
            &&& final(store).records().last().payload.authority@ == ctx.accounts.authority.key@
            &&& final(store).records().last().payload.latest@ == zero_bytes()
            &&& final(store).records().last().payload.posts == 0
            &&& final(store).records().last().capacity == BLOG_SPACE
            &&& final(store).records().drop_last() == old(store).records()
        },
        r is Err ==> *final(store) == *old(store),
{
    match require_signature(&ctx.accounts.authority) {
        Ok(()) => {},
        Err(e) => {
            return Err(e);
        },
    }
    let seeds = identity_seed(&ctx.accounts.authority.key);
    match require_bound(&ctx.program_id, blog_label_bytes().as_slice(), &seeds, &ctx.accounts.blog) {
        Ok(_) => {},
        Err(e) => {
            return Err(e);
        },
    }
    let blog = Blog { authority: ctx.accounts.authority.key, latest: Identity::zero(), posts: 0 };
    match store.create(
        &ctx.accounts.blog,
        &ctx.program_id,
        &ctx.accounts.authority.key,
        blog,
        BLOG_SPACE,
    ) {
        Ok(_) => {
            assert(final(store).records().drop_last() =~= old(store).records());
            Ok(())
        },
        Err(e) => Err(e),
    }
}

/// Adds a post to a blog and makes it the newest of its chain.
///
/// The post points at the post that was the newest before; the blog then
/// points at the post and counts one more. Fails with `NotFound` when the
/// component has no blog at the address, with `Unauthorized` when the
/// authority did not sign, is not the blog's, or the post's address is not
/// the one derived from the blog and the title, with `DerivationExhausted`
/// when nothing derives, with `InsufficientCapacity` when the space to
/// reserve cannot be had, with `ArithmeticOverflow` when the count is at its
/// greatest value, and with `AlreadyExists` when a post lives at the
/// address. On failure both stores are unchanged.
pub fn create_post(
    blogs: &mut Store<Blog>,
    posts: &mut Store<Post>,
    ctx: &Context<CreatePost>,
    title: String,
    content: String,
    timestamp: i64,
) -> (r: Result<(), Error>)
    requires
        old(blogs).wf(),
        old(posts).wf(),
    ensures
        final(blogs).wf(),
        final(posts).wf(),
        r == create_post_spec(*old(blogs), *old(posts), *ctx, title@, content@),
        r is Ok ==> {
            &&& final(posts).addresses() == old(posts).addresses().push(ctx.accounts.post@)
            &&& final(posts).records() == old(posts).records().push(
                StateRecord {
                    owner_component: ctx.program_id,
                    authority: ctx.accounts.authority.key,
                    payload: Post {
                        title: title,
                        content: content,
                        timestamp: timestamp,
                        blog: ctx.accounts.blog,
                        previous: old(blogs).record_at(ctx.accounts.blog@).payload.latest,
                    },
                    capacity: post_space_spec(title@, content@)->Some_0,
                },
            )
            &&& final(blogs).addresses() == old(blogs).addresses()
            &&& final(blogs).records() == old(blogs).records().update(
                old(blogs).slot_of(ctx.accounts.blog@),
                with_payload(
                    old(blogs).record_at(ctx.accounts.blog@),
                    Blog {
                        authority: old(blogs).record_at(ctx.accounts.blog@).payload.authority,
                        latest: ctx.accounts.post,
                        posts: (old(blogs).record_at(ctx.accounts.blog@).payload.posts + 1) as u64,
                    },
                ),
            )
        },
        r is Err ==> *final(blogs) == *old(blogs) && *final(posts) == *old(posts),
{
    let handle = match blogs.find(&ctx.accounts.blog) {
        Some(h) => h,
        None => {
            return Err(Error::NotFound);
        },
    };
    let record = blogs.record(handle);
    if !record.owner_component.same(&ctx.program_id) {
        return Err(Error::NotFound);
    }
    match check(record, &ctx.accounts.authority, None) {
        Ok(()) => {},
        Err(e) => {
            return Err(e);
        },
    }
    let mut seeds: Vec<Vec<u8>> = Vec::new();
    seeds.push(ctx.accounts.blog.to_vec());
    seeds.push(title_seed(title.as_str()));
    assert(crate::deriver::views(seeds@) =~= post_seeds(ctx.accounts.blog@, title@));
    match require_bound(&ctx.program_id, post_label_bytes().as_slice(), &seeds, &ctx.accounts.post) {
        Ok(_) => {},
        Err(e) => {
            return Err(e);
        },
    }
    let space = match post_space(title.as_str(), content.as_str()) {
        Some(space) => space,
        None => {
            return Err(Error::InsufficientCapacity);
        },
    };
    let blog = record.payload;
    if blog.posts == u64::MAX {
        return Err(Error::ArithmeticOverflow);
    }
    let post = Post {
        title: title,
        content: content,
        timestamp: timestamp,
        blog: ctx.accounts.blog,
        previous: blog.latest,
    };
    match posts.create(&ctx.accounts.post, &ctx.program_id, &ctx.accounts.authority.key, post, space) {
        Ok(_) => {},
        Err(e) => {
            return Err(e);
        },
    }
    let next = Blog { authority: blog.authority, latest: ctx.accounts.post, posts: blog.posts + 1 };
    match blogs.put(handle, next) {
        Ok(()) => Ok(()),
        Err(e) => Err(e),
    }
}

/// Walks a chain of posts from `latest` along `previous`, newest first.
///
/// The walk ends at the sentinel, or at an address without a post, and
/// visits no more posts than the store holds.
pub fn chain(posts: &Store<Post>, latest: &Identity) -> (visited: Vec<Identity>)
    requires
        posts.wf(),
    ensures
        ids(visited@) == chain_spec(*posts, latest@, posts.records().len()),
{
    let mut visited: Vec<Identity> = Vec::new();
    let mut current = *latest;
    let mut fuel = posts.len();
    assert(ids(visited@) =~= Seq::<Seq<u8>>::empty());
    while fuel > 0
        invariant
            posts.wf(),
            ids(visited@) + chain_spec(*posts, current@, fuel as nat) == chain_spec(
                *posts,
                latest@,
                posts.records().len(),
            ),
        decreases fuel,
    {
        let found = if current.is_zero() {
            None
        } else {
            posts.find(&current)
        };
        match found {
            None => {
                assert(chain_spec(*posts, current@, fuel as nat) =~= Seq::<Seq<u8>>::empty());
                fuel = 0;
            },
            Some(h) => {
                let ghost before = ids(visited@);
                let previous = posts.record(h).payload.previous;
                visited.push(current);
                assert(ids(visited@) =~= before + seq![current@]);
                assert(before + (seq![current@] + chain_spec(
                    *posts,
                    previous@,
                    (fuel - 1) as nat,
                )) =~= before + seq![current@] + chain_spec(*posts, previous@, (fuel - 1) as nat));
                current = previous;
                fuel = fuel - 1;
            },
        }
    }
    assert(ids(visited@) + Seq::<Seq<u8>>::empty() =~= ids(visited@));
    visited
}

} // verus!
