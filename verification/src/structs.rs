//! Pages and the blobs that carry them.

use vstd::prelude::*;
use crate::encoding::{i64_le_bytes, i64_to_le_bytes};
use crate::error::Error;
use crate::hash::{digest, hash, DIGEST_LEN};

verus! {

/// Largest number of bytes in a blob, tag included.
pub const MAX_BLOB_LEN: usize = 1000;

/// Largest number of bytes of data in a page.
pub const MAX_PAGE_DATA_LEN: usize = 991;

/// Number of children of a full branch.
pub const BRANCH_FAN_OUT: usize = 49;

/// Tag byte of a leaf blob.
pub const TAG_LEAF: u8 = 0;

/// Tag byte of a branch blob.
pub const TAG_BRANCH: u8 = 1;

/// What a blob is, by its tag byte.
#[derive(Debug, Clone, Copy, PartialEq, Eq, Structural)]
pub enum BlobKind {
    /// A page: tag, weight, data.
    Leaf,
    /// An index node: tag, then the digests of its children.
    Branch,
}

/// The kind of the blob with the given bytes; none where there is no tag
/// byte or the tag is unknown.
pub open spec fn kind_of(bytes: Seq<u8>) -> Option<BlobKind> {
    if bytes.len() == 0 {
        None
    } else if bytes[0] == TAG_LEAF {
        Some(BlobKind::Leaf)
    } else if bytes[0] == TAG_BRANCH {
        Some(BlobKind::Branch)
    } else {
        None
    }
}

/// The bytes of the leaf blob for a page: tag, weight, data.
pub open spec fn leaf_bytes(n_value: i64, data: Seq<u8>) -> Seq<u8> {
    seq![TAG_LEAF] + i64_le_bytes(n_value) + data
}

/// The digests of `children` one after another.
pub open spec fn digest_list(children: Seq<Seq<u8>>) -> Seq<u8>
    decreases children.len(),
{
    if children.len() == 0 {
        Seq::empty()
    } else {
        digest_list(children.drop_last()) + digest(children.last())
    }
}

/// The chunks of a list one after another.
pub open spec fn concat(chunks: Seq<Seq<u8>>) -> Seq<u8>
    decreases chunks.len(),
{
    if chunks.len() == 0 {
        Seq::empty()
    } else {
        concat(chunks.drop_last()) + chunks.last()
    }
}

/// The digest of each blob of a list.
pub open spec fn digests_of(children: Seq<Seq<u8>>) -> Seq<Seq<u8>> {
    Seq::new(children.len(), |i: int| digest(children[i]))
}

/// The digest list of blobs is their digests one after another.
pub proof fn lemma_digest_list_concat(children: Seq<Seq<u8>>)
    ensures
        digest_list(children) == concat(digests_of(children)),
    decreases children.len(),
{
    if children.len() > 0 {
        lemma_digest_list_concat(children.drop_last());
        assert(digests_of(children).drop_last() =~= digests_of(children.drop_last()));
    }
}

/// The bytes of each digest of a list.
pub open spec fn digest_views(digests: Seq<Vec<u8>>) -> Seq<Seq<u8>> {
    Seq::new(digests.len(), |i: int| digests[i]@)
}

/// The bytes of the branch blob over `children`: tag, then the digest of each
/// child in order.
pub open spec fn branch_bytes(children: Seq<Seq<u8>>) -> Seq<u8> {
    seq![TAG_BRANCH] + digest_list(children)
}

/// The digest list of `n` children is `20 * n` bytes long.
pub proof fn lemma_digest_list_len(children: Seq<Seq<u8>>)
    ensures
        digest_list(children).len() == DIGEST_LEN * children.len(),
    decreases children.len(),
{
    if children.len() > 0 {
        lemma_digest_list_len(children.drop_last());
    }
}

/// The `i`-th 20-byte chunk of a branch payload.
pub open spec fn chunk(payload: Seq<u8>, i: int) -> Seq<u8> {
    payload.subrange(DIGEST_LEN as int * i, DIGEST_LEN as int * i + DIGEST_LEN as int)
}

/// The `i`-th chunk of a digest list is the digest of the `i`-th child.
pub proof fn lemma_digest_list_chunk(children: Seq<Seq<u8>>, i: int)
    requires
        0 <= i < children.len(),
    ensures
        digest_list(children).len() == DIGEST_LEN * children.len(),
        chunk(digest_list(children), i) == digest(children[i]),
    decreases children.len(),
{
    let front = digest_list(children.drop_last());
    let back = digest(children.last());
    let low = 20 * i;
    lemma_digest_list_len(children);
    lemma_digest_list_len(children.drop_last());
    assert(front.len() == 20 * (children.len() - 1));
    assert(back.len() == 20);
    assert(digest_list(children) == front + back);
    if i < children.len() - 1 {
        lemma_digest_list_chunk(children.drop_last(), i);
        assert(children.drop_last()[i] == children[i]);
        assert(low + 20 <= front.len());
        assert((front + back).subrange(low, low + 20) =~= front.subrange(low, low + 20));
    } else {
        assert(low == front.len());
        assert((front + back).subrange(low, low + 20) =~= back);
    }
}

/// A tagged binary record, addressed by the digest of its bytes.
#[derive(Debug, PartialEq, Eq)]
pub struct DataBlob {
    /// The tag byte followed by the payload.
    pub data: Vec<u8>,
}

impl View for DataBlob {
    type V = Seq<u8>;

    open spec fn view(&self) -> Seq<u8> {
        self.data@
    }
}

impl Clone for DataBlob {
    fn clone(&self) -> (copy: Self)
        ensures
            copy@ == self@,
    {
        DataBlob { data: self.data.clone() }
    }
}

impl DataBlob {
    /// The blob is no longer than `MAX_BLOB_LEN` bytes.
    pub open spec fn wf(&self) -> bool {
        self.data@.len() <= MAX_BLOB_LEN
    }

    /// Takes `data` as a blob, unless it is too long.
    pub fn new(data: Vec<u8>) -> (made: Result<DataBlob, Error>)
        ensures
            match made {
                Ok(blob) => data@.len() <= MAX_BLOB_LEN && blob.data == data,
                Err(Error::MaxVectorSize(limit)) => data@.len() > MAX_BLOB_LEN && limit == 1000,
                Err(_) => false,
            },
    {
        if data.len() > MAX_BLOB_LEN {
            return Err(Error::MaxVectorSize(1000));
        }
        Ok(DataBlob { data })
    }

    /// The leaf blob that carries `page`.
    pub fn from_page(page: UnpublishedPage) -> (blob: DataBlob)
        ensures
            blob@ == leaf_bytes(page.n_value, page.data@),
            page.wf() ==> blob.wf(),
    {
        DataBlob::leaf(page.n_value, &page.data)
    }

    /// The leaf blob for a page of weight `n_value` and content `data`.
    pub fn leaf(n_value: i64, data: &Vec<u8>) -> (blob: DataBlob)
        ensures
            blob@ == leaf_bytes(n_value, data@),
            data@.len() <= MAX_PAGE_DATA_LEN ==> blob.wf(),
    {
        let mut bytes: Vec<u8> = Vec::new();
        bytes.push(TAG_LEAF);
        let mut weight = i64_to_le_bytes(n_value);
        bytes.append(&mut weight);
        let mut body = data.clone();
        bytes.append(&mut body);
        DataBlob { data: bytes }
    }

    /// The branch blob that names its children by `digests`, unless there
    /// are more than `BRANCH_FAN_OUT` of them.
    pub fn from_digests(digests: &Vec<Vec<u8>>) -> (made: Result<DataBlob, Error>)
        requires
            forall|i: int|
                0 <= i < digests@.len() ==> (#[trigger] digests@[i])@.len() == DIGEST_LEN,
        ensures
            match made {
                Ok(blob) => {
                    &&& digests@.len() <= BRANCH_FAN_OUT
                    &&& blob@ == seq![TAG_BRANCH] + concat(digest_views(digests@))
                    &&& blob@.len() == 1 + DIGEST_LEN * digests@.len()
                    &&& blob.wf()
                },
                Err(Error::MaxVectorSize(limit)) => digests@.len() > BRANCH_FAN_OUT && limit
                    == 49,
                Err(_) => false,
            },
    {
        if digests.len() > BRANCH_FAN_OUT {
            return Err(Error::MaxVectorSize(49));
        }
        let ghost views = digest_views(digests@);
        let mut bytes: Vec<u8> = Vec::new();
        bytes.push(TAG_BRANCH);
        let mut i: usize = 0;
        while i < digests.len()
            invariant
                i <= digests@.len(),
                views == digest_views(digests@),
                forall|k: int|
                    0 <= k < digests@.len() ==> (#[trigger] digests@[k])@.len() == DIGEST_LEN,
                bytes@ == seq![TAG_BRANCH] + concat(views.take(i as int)),
                bytes@.len() == 1 + DIGEST_LEN * i,
            decreases digests@.len() - i,
        {
            let mut digest = digests[i].clone();
            bytes.append(&mut digest);
            proof {
                assert(views.take(i + 1).drop_last() == views.take(i as int));
                assert(views.take(i + 1).last() == digests@[i as int]@);
            }
            i += 1;
        }
        proof {
            assert(views.take(i as int) == views);
        }
        Ok(DataBlob { data: bytes })
    }

    /// The branch blob over `data`, unless it has more than `BRANCH_FAN_OUT`
    /// children.
    pub fn new_branch(data: &Vec<DataBlob>) -> (made: Result<DataBlob, Error>)
        ensures
            match made {
                Ok(blob) => {
                    &&& data@.len() <= BRANCH_FAN_OUT
                    &&& blob@ == branch_bytes(blob_views(data@))
                    &&& blob.wf()
                },
                Err(Error::MaxVectorSize(limit)) => data@.len() > BRANCH_FAN_OUT && limit == 49,
                Err(_) => false,
            },
    {
        if data.len() > BRANCH_FAN_OUT {
            return Err(Error::MaxVectorSize(49));
        }
        let ghost children = blob_views(data@);
        let mut digests: Vec<Vec<u8>> = Vec::new();
        let mut i: usize = 0;
        while i < data.len()
            invariant
                i <= data@.len(),
                children == blob_views(data@),
                digest_views(digests@) == digests_of(children).take(i as int),
                forall|k: int|
                    0 <= k < digests@.len() ==> (#[trigger] digests@[k])@.len() == DIGEST_LEN,
            decreases data@.len() - i,
        {
            let ghost before = digests@;
            let child = data[i].hash();
            digests.push(child);
            proof {
                assert(digest_views(digests@) =~= digest_views(before).push(child@));
                assert(digests_of(children).take(i + 1) =~= digests_of(children).take(
                    i as int,
                ).push(digest(data@[i as int]@)));
            }
            i += 1;
        }
        proof {
            assert(digests_of(children).take(i as int) == digests_of(children));
            lemma_digest_list_concat(children);
        }
        DataBlob::from_digests(&digests)
    }

    /// The kind of this blob, by its tag byte.
    pub fn kind(&self) -> (kind: Option<BlobKind>)
        ensures
            kind == kind_of(self@),
    {
        if self.data.len() == 0 {
            None
        } else if self.data[0] == TAG_LEAF {
            Some(BlobKind::Leaf)
        } else if self.data[0] == TAG_BRANCH {
            Some(BlobKind::Branch)
        } else {
            None
        }
    }

    /// The digest that addresses this blob.
    pub fn hash(&self) -> (out: Vec<u8>)
        ensures
            out@ == digest(self@),
            out@.len() == DIGEST_LEN,
    {
        hash(self.data.as_slice())
    }
}

/// The bytes of each blob of a list.
pub open spec fn blob_views(blobs: Seq<DataBlob>) -> Seq<Seq<u8>> {
    Seq::new(blobs.len(), |i: int| blobs[i]@)
}

/// A page of the library, as committed in block `block_height`.
#[derive(Debug, PartialEq, Eq)]
pub struct Page {
    /// Height of the block that holds the commitment.
    pub block_height: u64,
    /// Economic weight of the page, in base units.
    pub n_value: i64,
    /// Content of the page.
    pub data: Vec<u8>,
}

/// The mathematical value of a `Page`.
pub struct PageView {
    pub block_height: u64,
    pub n_value: i64,
    pub data: Seq<u8>,
}

impl View for Page {
    type V = PageView;

    open spec fn view(&self) -> PageView {
        PageView { block_height: self.block_height, n_value: self.n_value, data: self.data@ }
    }
}

/// The value of each page of a list.
pub open spec fn page_views(pages: Seq<Page>) -> Seq<PageView> {
    Seq::new(pages.len(), |i: int| pages[i]@)
}

impl Page {
    /// The data is no longer than `MAX_PAGE_DATA_LEN` bytes.
    pub open spec fn wf(&self) -> bool {
        self.data@.len() <= MAX_PAGE_DATA_LEN
    }

    /// Makes a page, unless `data` is too long.
    pub fn new(block_height: u64, n_value: i64, data: Vec<u8>) -> (made: Result<Page, Error>)
        ensures
            match made {
                Ok(page) => {
                    &&& data@.len() <= MAX_PAGE_DATA_LEN
                    &&& page.block_height == block_height
                    &&& page.n_value == n_value
                    &&& page.data == data
                },
                Err(Error::MaxVectorSize(limit)) => data@.len() > MAX_PAGE_DATA_LEN && limit
                    == 991,
                Err(_) => false,
            },
    {
        if data.len() > MAX_PAGE_DATA_LEN {
            return Err(Error::MaxVectorSize(991));
        }
        Ok(Page { block_height, n_value, data })
    }
}

/// A page that waits to be published, known by its name.
#[derive(Debug, PartialEq, Eq)]
pub struct UnpublishedPage {
    /// Local key of the page.
    pub name: String,
    /// Economic weight of the page, in base units.
    pub n_value: i64,
    /// Content of the page.
    pub data: Vec<u8>,
}

impl UnpublishedPage {
    /// The data is no longer than `MAX_PAGE_DATA_LEN` bytes.
    pub open spec fn wf(&self) -> bool {
        self.data@.len() <= MAX_PAGE_DATA_LEN
    }

    /// Makes an unpublished page, unless `data` is too long.
    pub fn new(name: String, n_value: i64, data: Vec<u8>) -> (made: Result<
        UnpublishedPage,
        Error,
    >)
        ensures
            match made {
                Ok(page) => {
                    &&& data@.len() <= MAX_PAGE_DATA_LEN
                    &&& page.name == name
                    &&& page.n_value == n_value
                    &&& page.data == data
                },
                Err(Error::MaxVectorSize(limit)) => data@.len() > MAX_PAGE_DATA_LEN && limit
                    == 991,
                Err(_) => false,
            },
    {
        if data.len() > MAX_PAGE_DATA_LEN {
            return Err(Error::MaxVectorSize(991));
        }
        Ok(UnpublishedPage { name, n_value, data })
    }
}

} // verus!
