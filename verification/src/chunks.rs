//! Content-addressable chunks: files cut into blocks of one size, named by what they hold.

use vstd::prelude::*;

verus! {

/// What SHA-256 gives for some bytes.
pub uninterp spec fn sha256_of(data: Seq<u8>) -> Seq<u8>;

/// `Sha256::digest` of the `sha2` crate computes the SHA-256 digest of the bytes, which has 32
/// bytes and rests on nothing but them.
#[verifier::external_body]
fn sha256(data: &Vec<u8>) -> (digest: [u8; 32])
    ensures
        digest@ == sha256_of(data@),
{
    <sha2::Sha256 as digest::Digest>::digest(data).into()
}

/// The lower-case hexadecimal digit of a number below 16.
pub open spec fn hex_digit(n: u8) -> char {
    if n < 10 {
        ('0' as u8 + n) as char
    } else {
        ('a' as u8 + n - 10) as char
    }
}

/// The bytes in lower-case hexadecimal, two digits each.
pub open spec fn hex_text(bytes: Seq<u8>) -> Seq<char>
    decreases bytes.len(),
{
    if bytes.len() == 0 {
        Seq::empty()
    } else {
        hex_text(bytes.drop_last()).push(hex_digit(bytes.last() / 16)).push(
            hex_digit(bytes.last() % 16),
        )
    }
}

fn hex(n: u8) -> (c: char)
    requires
        n < 16,
    ensures
        c == hex_digit(n),
{
    if n < 10 {
        ('0' as u8 + n) as char
    } else {
        ('a' as u8 + n - 10) as char
    }
}

/// Returns the digest in lower-case hexadecimal.
pub fn digest_name(digest: &[u8; 32]) -> (name: String)
    ensures
        name@ == hex_text(digest@),
{
    let mut name: String = String::new();
    let mut i: usize = 0;
    assert(digest@.take(0) =~= Seq::<u8>::empty());
    while i < 32
        invariant
            i <= 32,
            name@ == hex_text(digest@.take(i as int)),
        decreases 32 - i,
    {
        let byte: u8 = digest[i];
        assert(digest@.take(i + 1).drop_last() =~= digest@.take(i as int));
        name.push(hex(byte / 16));
        name.push(hex(byte % 16));
        i += 1;
    }
    assert(digest@.take(32) =~= digest@);
    name
}

/// The name of a chunk: the SHA-256 digest of what it holds, in hexadecimal.
pub open spec fn chunk_name(data: Seq<u8>) -> Seq<char> {
    hex_text(sha256_of(data))
}

/// How many chunks of `size` bytes hold `len` bytes.
pub open spec fn chunk_count(len: nat, size: nat) -> nat {
    ((len + size - 1) / size as int) as nat
}

/// The byte at `at`, where `content` is followed by zeros.
pub open spec fn padded_byte(content: Seq<u8>, at: int) -> u8 {
    if at < content.len() {
        content[at]
    } else {
        0
    }
}

/// The first `len` bytes of `content` followed by zeros.
pub open spec fn padded(content: Seq<u8>, len: nat) -> Seq<u8> {
    Seq::new(len, |at: int| padded_byte(content, at))
}

/// Chunk `i` of `content`: the `size` bytes from position `i * size` on, of which those behind
/// the content's end are zeros.
pub open spec fn chunk_data(content: Seq<u8>, size: nat, i: int) -> Seq<u8> {
    Seq::new(size, |j: int| padded_byte(content, i * size + j))
}

/// A chunk of a file.
#[derive(Debug, PartialEq, Eq)]
pub struct Chunk {
    /// The chunk's name, under which it is stored.
    pub name: String,
    /// What the chunk holds.
    pub data: Vec<u8>,
}

impl Chunk {
    /// Whether this is chunk `i` of `content`, under its name.
    pub open spec fn is_chunk_of(self, content: Seq<u8>, size: nat, i: int) -> bool {
        &&& self.data@ == chunk_data(content, size, i)
        &&& self.name@ == chunk_name(self.data@)
    }
}

/// Whether these are the chunks of `content`, in order.
pub open spec fn are_chunks_of(chunks: Seq<Chunk>, content: Seq<u8>, size: nat) -> bool {
    &&& chunks.len() == chunk_count(content.len(), size)
    &&& forall|i: int|
        0 <= i < chunks.len() ==> (#[trigger] chunks[i]).is_chunk_of(content, size, i)
}

/// Returns the chunk of the `size` bytes of `content` from `start` on.
fn chunk_at(content: &Vec<u8>, size: usize, start: usize) -> (chunk: Chunk)
    requires
        start <= content@.len(),
    ensures
        chunk.data@ == Seq::new(size as nat, |j: int| padded_byte(content@, start + j)),
        chunk.name@ == chunk_name(chunk.data@),
{
    let mut data: Vec<u8> = Vec::new();
    let mut j: usize = 0;
    while j < size
        invariant
            j <= size,
            start <= content@.len(),
            data@ == Seq::new(j as nat, |k: int| padded_byte(content@, start + k)),
        decreases size - j,
    {
        let byte: u8 = if j < content.len() - start {
            content[start + j]
        } else {
            0
        };
        data.push(byte);
        j += 1;
        assert(data@ =~= Seq::new(j as nat, |k: int| padded_byte(content@, start + k)));
    }
    let name: String = digest_name(&sha256(&data));
    Chunk { name, data }
}

/// Where a chunk count lies between two bounds, it is the one that they leave.
proof fn lemma_chunk_count(len: nat, size: nat, count: int)
    by (nonlinear_arith)
    requires
        size > 0,
        count > 0 ==> (count - 1) * size < len,
        count == 0 ==> len == 0,
        len <= count * size,
        count >= 0,
    ensures
        (len + size - 1) / size as int == count,
{
}

/// Cuts `content` into chunks of `size` bytes, of which the last is filled up with zeros.
fn chunks_of(content: &Vec<u8>, size: usize) -> (chunks: Vec<Chunk>)
    requires
        size > 0,
    ensures
        are_chunks_of(chunks@, content@, size as nat),
{
    let mut chunks: Vec<Chunk> = Vec::new();
    let mut start: usize = 0;
    let mut more: bool = content.len() > 0;
    while more
        invariant
            size > 0,
            start <= content@.len(),
            more ==> start == chunks@.len() * size && start < content@.len(),
            !more ==> content@.len() <= chunks@.len() * size,
            !more && chunks@.len() > 0 ==> (chunks@.len() - 1) * size < content@.len(),
            forall|i: int|
                0 <= i < chunks@.len() ==> (#[trigger] chunks@[i]).is_chunk_of(
                    content@,
                    size as nat,
                    i,
                ),
        decreases
                content@.len() - start + if more {
                    1int
                } else {
                    0
                },
    {
        let chunk: Chunk = chunk_at(content, size, start);
        proof {
            let i = chunks@.len() as int;
            assert(chunk.data@ =~= chunk_data(content@, size as nat, i));
            assert((i + 1) * size == i * size + size) by (nonlinear_arith);
        }
        chunks.push(chunk);
        if size < content.len() - start {
            start += size;
        } else {
            more = false;
        }
    }
    proof {
        lemma_chunk_count(content@.len(), size as nat, chunks@.len() as int);
    }
    chunks
}

/// Which chunks make up which file, and how long each file is.
#[derive(Debug, PartialEq, Eq)]
pub struct BlockMapping {
    /// For each block its file's path, its number in the file, and the name of the chunk that
    /// holds it; file by file and in order.
    pub blocks: Vec<(String, usize, String)>,
    /// For each file its path and its length in bytes.
    pub lengths: Vec<(String, usize)>,
}

/// What a block mapping says.
pub struct MappingView {
    /// For each block its file's path, its number in the file, and the name of its chunk.
    pub blocks: Seq<(Seq<char>, usize, Seq<char>)>,
    /// For each file its path and its length in bytes.
    pub lengths: Seq<(Seq<char>, usize)>,
}

/// What these lists say.
pub open spec fn mapping_of(
    blocks: Seq<(String, usize, String)>,
    lengths: Seq<(String, usize)>,
) -> MappingView {
    MappingView {
        blocks: Seq::new(
            blocks.len(),
            |i: int| (blocks[i].0@, blocks[i].1, blocks[i].2@),
        ),
        lengths: Seq::new(lengths.len(), |i: int| (lengths[i].0@, lengths[i].1)),
    }
}

impl View for BlockMapping {
    type V = MappingView;

    open spec fn view(&self) -> MappingView {
        mapping_of(self.blocks@, self.lengths@)
    }
}

/// The blocks of the file at `path` that these chunks are.
pub open spec fn blocks_of(path: Seq<char>, chunks: Seq<Chunk>) -> Seq<
    (Seq<char>, usize, Seq<char>),
> {
    Seq::new(chunks.len(), |i: int| (path, i as usize, chunks[i].name@))
}

impl MappingView {
    /// The mapping that lists, behind all that this one lists, the file at `path` with its
    /// length and its chunks.
    pub open spec fn with_file(self, path: Seq<char>, len: usize, chunks: Seq<Chunk>) -> Self {
        MappingView {
            blocks: self.blocks + blocks_of(path, chunks),
            lengths: self.lengths.push((path, len)),
        }
    }

    /// Whether the mapping lists nothing of the file at `path`.
    pub open spec fn lacks(self, path: Seq<char>) -> bool {
        &&& forall|i: int| 0 <= i < self.blocks.len() ==> (#[trigger] self.blocks[i]).0 != path
        &&& forall|i: int| 0 <= i < self.lengths.len() ==> (#[trigger] self.lengths[i]).0 != path
    }

    /// Whether the files stand in `order`, no file twice, and the blocks in the order of their
    /// files and within a file in the order of their numbers.
    pub open spec fn in_order(self, order: spec_fn(Seq<char>, Seq<char>) -> bool) -> bool {
        &&& forall|i: int, j: int|
            0 <= i < j < self.blocks.len() ==> order(
                (#[trigger] self.blocks[i]).0,
                (#[trigger] self.blocks[j]).0,
            ) || (self.blocks[i].0 == self.blocks[j].0 && self.blocks[i].1 < self.blocks[j].1)
        &&& forall|i: int, j: int|
            0 <= i < j < self.lengths.len() ==> order(
                (#[trigger] self.lengths[i]).0,
                (#[trigger] self.lengths[j]).0,
            )
    }

    /// Whether no pair of a path and a number occurs twice among the blocks.
    pub open spec fn lists_no_block_twice(self) -> bool {
        forall|i: int, j: int|
            0 <= i < j < self.blocks.len() ==> (#[trigger] self.blocks[i]).0 != (
            #[trigger] self.blocks[j]).0 || self.blocks[i].1 != self.blocks[j].1
    }

    /// Whether `path` comes behind all paths of the mapping in `order`.
    pub open spec fn is_behind(
        self,
        path: Seq<char>,
        order: spec_fn(Seq<char>, Seq<char>) -> bool,
    ) -> bool {
        &&& forall|i: int|
            0 <= i < self.blocks.len() ==> order((#[trigger] self.blocks[i]).0, path)
        &&& forall|i: int|
            0 <= i < self.lengths.len() ==> order((#[trigger] self.lengths[i]).0, path)
    }
}

impl BlockMapping {
    /// Returns a mapping without a file.
    pub fn new() -> (mapping: Self)
        ensures
            mapping@.blocks.len() == 0,
            mapping@.lengths.len() == 0,
    {
        BlockMapping { blocks: Vec::new(), lengths: Vec::new() }
    }

    /// Cuts the file at `path` into chunks of `chunk_size` bytes, of which the last is filled up
    /// with zeros, lists the file with its length and its chunks in the mapping, and returns the
    /// chunks.
    pub fn add_file(&mut self, path: &str, content: &Vec<u8>, chunk_size: usize) -> (chunks: Vec<
        Chunk,
    >)
        requires
            chunk_size > 0,
        ensures
            are_chunks_of(chunks@, content@, chunk_size as nat),
            final(self)@ == old(self)@.with_file(path@, content@.len() as usize, chunks@),
    {
        let chunks: Vec<Chunk> = chunks_of(content, chunk_size);
        let ghost before = self@;
        let mut i: usize = 0;
        assert(self@.blocks =~= before.blocks + blocks_of(path@, chunks@).take(0));
        while i < chunks.len()
            invariant
                i <= chunks@.len(),
                self@.lengths == before.lengths,
                self@.blocks == before.blocks + blocks_of(path@, chunks@).take(i as int),
            decreases chunks@.len() - i,
        {
            let ghost earlier = self@.blocks;
            self.blocks.push((path.to_owned(), i, chunks[i].name.clone()));
            assert(self@.blocks =~= earlier.push((path@, i, chunks@[i as int].name@)));
            assert(self@.blocks =~= before.blocks + blocks_of(path@, chunks@).take(i + 1));
            assert(self@.lengths =~= before.lengths);
            i += 1;
        }
        assert(blocks_of(path@, chunks@).take(i as int) =~= blocks_of(path@, chunks@));
        let ghost blocks = self@.blocks;
        self.lengths.push((path.to_owned(), content.len()));
        assert(self@.lengths =~= before.lengths.push((path@, content@.len() as usize)));
        assert(self@.blocks =~= blocks);
        chunks
    }
}

/// The file name that a chunk is stored under.
pub fn chunk_file_name(name: &str) -> (file_name: String)
    ensures
        file_name@ == name@ + ".chunk"@,
{
    let mut file_name: String = name.to_owned();
    file_name.append(".chunk");
    file_name
}

/// Returns how many bytes `kib` kilobytes are.
pub fn chunk_size_in_bytes(kib: usize) -> (bytes: usize)
    requires
        kib * 1024 <= usize::MAX,
    ensures
        bytes == kib * 1024,
{
    kib * 1024
}

/// `serde_json::Error`, which says why a value could not be written as JSON.
#[verifier::external_type_specification]
#[verifier::external_body]
pub struct ExJsonError(serde_json::Error);

/// What `serde_json::to_string_pretty` makes of a pair of a list of blocks and a list of lengths.
pub uninterp spec fn pretty_json(
    blocks: Seq<(Seq<char>, usize, Seq<char>)>,
    lengths: Seq<(Seq<char>, usize)>,
) -> Seq<char>;

/// The pair of a list of blocks and a list of lengths that `serde_json::from_str` reads in a
/// text, where it reads one.
pub uninterp spec fn json_lists(text: Seq<char>) -> Option<
    (Seq<(Seq<char>, usize, Seq<char>)>, Seq<(Seq<char>, usize)>),
>;

/// `serde_json::to_string_pretty` writes the two lists as JSON, indented. What it gives rests on
/// the lists alone. Strings, integers, sequences and tuples are written without fail, and
/// `serde_json::from_str` reads the same two lists back.
#[verifier::external_body]
fn to_string_pretty(
    blocks: &Vec<(String, usize, String)>,
    lengths: &Vec<(String, usize)>,
) -> (r: Result<String, serde_json::Error>)
    ensures
        r is Ok,
        r matches Ok(json) ==> json@ == pretty_json(
            mapping_of(blocks@, lengths@).blocks,
            mapping_of(blocks@, lengths@).lengths,
        ),
        r matches Ok(json) ==> json_lists(json@) == Some(
            (mapping_of(blocks@, lengths@).blocks, mapping_of(blocks@, lengths@).lengths),
        ),
{
    serde_json::to_string_pretty(&(blocks, lengths))
}

/// Why a block mapping cannot be stored.
#[derive(Debug)]
pub enum BlockMappingError {
    /// Cannot write the mapping as JSON.
    Json(serde_json::Error),
}

impl BlockMapping {
    /// Returns the mapping as it is stored: as a pair of lists in indented JSON, the blocks and
    /// the lengths. Who reads the JSON gets the same lists.
    pub fn to_json(&self) -> (r: Result<String, BlockMappingError>)
        ensures
            r matches Ok(json) && json@ == pretty_json(self@.blocks, self@.lengths) && json_lists(
                json@,
            ) == Some((self@.blocks, self@.lengths)),
    {
        match to_string_pretty(&self.blocks, &self.lengths) {
            Ok(json) => Ok(json),
            Err(e) => Err(BlockMappingError::Json(e)),
        }
    }
}

/// The chunk store after these chunks were written in turn: a chunk whose name is taken is not
/// written again.
pub open spec fn stored(store: Map<Seq<char>, Seq<u8>>, chunks: Seq<Chunk>) -> Map<
    Seq<char>,
    Seq<u8>,
>
    decreases chunks.len(),
{
    if chunks.len() == 0 {
        store
    } else {
        let before = stored(store, chunks.drop_last());
        let chunk = chunks.last();
        if before.contains_key(chunk.name@) {
            before
        } else {
            before.insert(chunk.name@, chunk.data@)
        }
    }
}

/// Whether everything in the store is under its own name.
pub open spec fn is_addressed_by_content(store: Map<Seq<char>, Seq<u8>>) -> bool {
    forall|name: Seq<char>| #[trigger]
        store.contains_key(name) ==> chunk_name(store[name]) == name
}

/// A store in which everything is under its own name keeps that when chunks are written, and
/// keeps all that it holds; each of the chunks is then there under its name, unless something
/// else with the same digest was.
pub proof fn law_store_is_addressed_by_content(
    store: Map<Seq<char>, Seq<u8>>,
    chunks: Seq<Chunk>,
)
    requires
        is_addressed_by_content(store),
        forall|i: int|
            0 <= i < chunks.len() ==> (#[trigger] chunks[i]).name@ == chunk_name(chunks[i].data@),
    ensures
        is_addressed_by_content(stored(store, chunks)),
        store.submap_of(stored(store, chunks)),
        forall|i: int|
            0 <= i < chunks.len() ==> {
                &&& stored(store, chunks).contains_key((#[trigger] chunks[i]).name@)
                &&& chunk_name(stored(store, chunks)[chunks[i].name@]) == chunk_name(
                    chunks[i].data@,
                )
            },
    decreases chunks.len(),
{
    if chunks.len() > 0 {
        let rest = chunks.drop_last();
        assert forall|i: int| 0 <= i < rest.len() implies (#[trigger] rest[i]).name@ == chunk_name(
            rest[i].data@,
        ) by {
            assert(rest[i] == chunks[i]);
        }
        law_store_is_addressed_by_content(store, rest);
        assert(chunks.last() == chunks[chunks.len() - 1]);
        assert forall|i: int| 0 <= i < chunks.len() implies {
            &&& stored(store, chunks).contains_key((#[trigger] chunks[i]).name@)
            &&& chunk_name(stored(store, chunks)[chunks[i].name@]) == chunk_name(chunks[i].data@)
        } by {
            if i < rest.len() {
                assert(rest[i] == chunks[i]);
            }
        }
    }
}

/// Chunks that hold the same bytes have the same name, whatever files they come from.
pub proof fn law_same_bytes_same_name(
    a: Chunk,
    a_content: Seq<u8>,
    i: int,
    b: Chunk,
    b_content: Seq<u8>,
    j: int,
    size: nat,
)
    requires
        a.is_chunk_of(a_content, size, i),
        b.is_chunk_of(b_content, size, j),
        chunk_data(a_content, size, i) == chunk_data(b_content, size, j),
    ensures
        a.name@ == b.name@,
{
}

/// Of chunks with one name one copy is stored: to write chunks a second time changes nothing.
pub proof fn law_chunks_are_stored_once(store: Map<Seq<char>, Seq<u8>>, chunks: Seq<Chunk>)
    ensures
        stored(stored(store, chunks), chunks) == stored(store, chunks),
{
    lemma_written_names(store, chunks);
    lemma_nothing_new(stored(store, chunks), chunks);
}

/// What was written is there.
proof fn lemma_written_names(store: Map<Seq<char>, Seq<u8>>, chunks: Seq<Chunk>)
    ensures
        forall|i: int|
            0 <= i < chunks.len() ==> stored(store, chunks).contains_key(
                (#[trigger] chunks[i]).name@,
            ),
    decreases chunks.len(),
{
    if chunks.len() > 0 {
        let rest = chunks.drop_last();
        lemma_written_names(store, rest);
        assert forall|i: int| 0 <= i < chunks.len() implies stored(store, chunks).contains_key(
            (#[trigger] chunks[i]).name@,
        ) by {
            if i < rest.len() {
                assert(rest[i] == chunks[i]);
            }
        }
    }
}

/// Where all names are taken nothing is written.
proof fn lemma_nothing_new(store: Map<Seq<char>, Seq<u8>>, chunks: Seq<Chunk>)
    requires
        forall|i: int|
            0 <= i < chunks.len() ==> store.contains_key((#[trigger] chunks[i]).name@),
    ensures
        stored(store, chunks) == store,
    decreases chunks.len(),
{
    if chunks.len() > 0 {
        let rest = chunks.drop_last();
        assert forall|i: int| 0 <= i < rest.len() implies store.contains_key(
            (#[trigger] rest[i]).name@,
        ) by {
            assert(rest[i] == chunks[i]);
        }
        lemma_nothing_new(store, rest);
        assert(chunks.last() == chunks[chunks.len() - 1]);
    }
}

/// The chunks hold the whole content, and less than one chunk more.
proof fn lemma_count_bounds(len: nat, size: nat)
    by (nonlinear_arith)
    requires
        size > 0,
    ensures
        len <= chunk_count(len, size) * size < len + size,
{
}

/// Returns the chunk where it is to be written to the store, given whether its name is taken
/// there: one copy is stored of each.
pub fn chunk_to_write(chunk: Chunk, name_is_taken: bool) -> (to_write: Option<Chunk>)
    ensures
        to_write == if name_is_taken {
            None
        } else {
            Some(chunk)
        },
        forall|store: Map<Seq<char>, Seq<u8>>|
            name_is_taken == #[trigger] store.contains_key(chunk.name@) ==> stored(
                store,
                seq![chunk],
            ) == match to_write {
                Some(c) => store.insert(c.name@, c.data@),
                None => store,
            },
{
    proof {
        let one = seq![chunk];
        assert(one.drop_last() =~= Seq::empty());
        assert forall|store: Map<Seq<char>, Seq<u8>>|
            name_is_taken == #[trigger] store.contains_key(chunk.name@) implies stored(store, one)
            == if name_is_taken {
            store
        } else {
            store.insert(chunk.name@, chunk.data@)
        } by {
            assert(stored(store, one.drop_last()) == store);
        }
    }
    if name_is_taken {
        None
    } else {
        Some(chunk)
    }
}

/// To write chunks one after the other, each to the store as the ones before left it, is to write
/// them all.
pub proof fn law_chunks_are_written_in_turn(
    store: Map<Seq<char>, Seq<u8>>,
    chunks: Seq<Chunk>,
    more: Seq<Chunk>,
)
    ensures
        stored(stored(store, chunks), more) == stored(store, chunks + more),
    decreases more.len(),
{
    let all = chunks + more;
    if more.len() == 0 {
        assert(all =~= chunks);
    } else {
        assert(all.drop_last() =~= chunks + more.drop_last());
        law_chunks_are_written_in_turn(store, chunks, more.drop_last());
    }
}

/// The names of the chunks of the file at `path`, in the order of the blocks.
pub open spec fn names_of(
    blocks: Seq<(Seq<char>, usize, Seq<char>)>,
    path: Seq<char>,
) -> Seq<Seq<char>>
    decreases blocks.len(),
{
    if blocks.len() == 0 {
        Seq::empty()
    } else if blocks.last().0 == path {
        names_of(blocks.drop_last(), path).push(blocks.last().2)
    } else {
        names_of(blocks.drop_last(), path)
    }
}

/// The length that is listed for the file at `path`.
pub open spec fn length_of(lengths: Seq<(Seq<char>, usize)>, path: Seq<char>) -> Option<usize>
    decreases lengths.len(),
{
    if lengths.len() == 0 {
        None
    } else if lengths.last().0 == path {
        Some(lengths.last().1)
    } else {
        length_of(lengths.drop_last(), path)
    }
}

/// The chunks with these names, one behind the other.
pub open spec fn joined(store: Map<Seq<char>, Seq<u8>>, names: Seq<Seq<char>>) -> Seq<u8>
    decreases names.len(),
{
    if names.len() == 0 {
        Seq::empty()
    } else {
        joined(store, names.drop_last()) + store[names.last()]
    }
}

/// The file at `path` as the mapping and the chunk store give it back: the chunks of its blocks,
/// one behind the other, as far as the file is long; `None` where the mapping does not list it.
pub open spec fn reconstructed(
    store: Map<Seq<char>, Seq<u8>>,
    mapping: MappingView,
    path: Seq<char>,
) -> Option<Seq<u8>> {
    match length_of(mapping.lengths, path) {
        Some(len) => Some(joined(store, names_of(mapping.blocks, path)).take(len as int)),
        None => None,
    }
}

/// The names of these chunks.
spec fn chunk_names(chunks: Seq<Chunk>) -> Seq<Seq<char>> {
    Seq::new(chunks.len(), |i: int| chunks[i].name@)
}

/// A path that a mapping lacks has neither blocks nor a length there.
proof fn lemma_lacking(mapping: MappingView, path: Seq<char>)
    requires
        mapping.lacks(path),
    ensures
        names_of(mapping.blocks, path) == Seq::<Seq<char>>::empty(),
        length_of(mapping.lengths, path) is None,
    decreases mapping.blocks.len() + mapping.lengths.len(),
{
    if mapping.blocks.len() > 0 {
        let rest = MappingView { blocks: mapping.blocks.drop_last(), ..mapping };
        assert(mapping.blocks.last() == mapping.blocks[mapping.blocks.len() - 1]);
        assert(forall|i: int|
            0 <= i < rest.blocks.len() ==> #[trigger] rest.blocks[i] == mapping.blocks[i]);
        lemma_lacking(rest, path);
    } else if mapping.lengths.len() > 0 {
        let rest = MappingView { lengths: mapping.lengths.drop_last(), ..mapping };
        assert(mapping.lengths.last() == mapping.lengths[mapping.lengths.len() - 1]);
        assert(forall|i: int|
            0 <= i < rest.lengths.len() ==> #[trigger] rest.lengths[i] == mapping.lengths[i]);
        lemma_lacking(rest, path);
    }
}

/// The blocks of a file add the names of its chunks to its own names, and none to another's.
proof fn lemma_names_with_blocks(
    blocks: Seq<(Seq<char>, usize, Seq<char>)>,
    path: Seq<char>,
    chunks: Seq<Chunk>,
    wanted: Seq<char>,
)
    ensures
        names_of(blocks + blocks_of(path, chunks), wanted) == names_of(blocks, wanted) + if wanted
            == path {
            chunk_names(chunks)
        } else {
            Seq::empty()
        },
    decreases chunks.len(),
{
    let all = blocks + blocks_of(path, chunks);
    if chunks.len() == 0 {
        assert(all =~= blocks);
        assert(chunk_names(chunks) =~= Seq::empty());
        assert(names_of(blocks, wanted) + Seq::<Seq<char>>::empty() =~= names_of(blocks, wanted));
    } else {
        let rest = chunks.drop_last();
        assert(all.drop_last() =~= blocks + blocks_of(path, rest));
        assert(all.last() == (path, (chunks.len() - 1) as usize, chunks.last().name@));
        lemma_names_with_blocks(blocks, path, rest, wanted);
        assert(chunk_names(chunks) =~= chunk_names(rest).push(chunks.last().name@));
        assert(names_of(blocks, wanted) + chunk_names(chunks) =~= (names_of(blocks, wanted)
            + chunk_names(rest)).push(chunks.last().name@));
    }
}

/// The first `n` chunks of a file, joined, are that much of the file, padded with zeros.
proof fn lemma_joined(
    store: Map<Seq<char>, Seq<u8>>,
    content: Seq<u8>,
    size: nat,
    chunks: Seq<Chunk>,
    n: int,
)
    requires
        are_chunks_of(chunks, content, size),
        forall|i: int|
            0 <= i < chunks.len() ==> store[(#[trigger] chunks[i]).name@] == chunks[i].data@,
        0 <= n <= chunks.len(),
    ensures
        n * size >= 0,
        joined(store, chunk_names(chunks).take(n)) == padded(content, (n * size) as nat),
    decreases n,
{
    assert(n * size >= 0) by (nonlinear_arith)
        requires
            n >= 0,
    ;
    let names = chunk_names(chunks).take(n);
    if n == 0 {
        assert(n * size == 0) by (nonlinear_arith)
            requires
                n == 0,
        ;
        assert(names =~= Seq::empty());
        assert(joined(store, names) =~= padded(content, 0));
    } else {
        let m = n - 1;
        lemma_joined(store, content, size, chunks, m);
        assert(names.drop_last() =~= chunk_names(chunks).take(m));
        assert(names.last() == chunks[m].name@);
        assert(chunks[m].is_chunk_of(content, size, m));
        assert(n * size == m * size + size) by (nonlinear_arith)
            requires
                n == m + 1,
        ;
        assert(padded(content, (m * size) as nat) + chunk_data(content, size, m) =~= padded(
            content,
            (n * size) as nat,
        ));
    }
}

/// A file can be reconstructed: listed in a mapping that lacked it, and with each of its chunks
/// stored under the chunk's name, the file comes back as it was.
pub proof fn law_file_can_be_reconstructed(
    store: Map<Seq<char>, Seq<u8>>,
    before: MappingView,
    path: Seq<char>,
    content: Vec<u8>,
    size: nat,
    chunks: Seq<Chunk>,
)
    requires
        size > 0,
        are_chunks_of(chunks, content@, size),
        before.lacks(path),
        forall|i: int|
            0 <= i < chunks.len() ==> store[(#[trigger] chunks[i]).name@] == chunks[i].data@,
    ensures
        reconstructed(
            store,
            before.with_file(path, content@.len() as usize, chunks),
            path,
        ) == Some(content@),
{
    let after = before.with_file(path, content@.len() as usize, chunks);
    let n = chunks.len() as int;
    assert(content.len() == content@.len());
    lemma_lacking(before, path);
    lemma_names_with_blocks(before.blocks, path, chunks, path);
    assert(names_of(after.blocks, path) =~= chunk_names(chunks).take(n));
    lemma_joined(store, content@, size, chunks, n);
    lemma_count_bounds(content@.len(), size);
    assert(padded(content@, (n * size) as nat).take(content@.len() as int) =~= content@);
}

/// Whether the store has each of these chunks under its name.
pub open spec fn holds(store: Map<Seq<char>, Seq<u8>>, chunks: Seq<Chunk>) -> bool {
    forall|i: int|
        0 <= i < chunks.len() ==> store.contains_key((#[trigger] chunks[i]).name@)
            && store[chunks[i].name@] == chunks[i].data@
}

/// Whether names tell these chunks from one another and from what is in the store: chunks of one
/// name hold the same, and so does what the store has under the name of a chunk.
pub open spec fn names_are_unambiguous(
    store: Map<Seq<char>, Seq<u8>>,
    chunks: Seq<Chunk>,
) -> bool {
    &&& forall|i: int, j: int|
        0 <= i < chunks.len() && 0 <= j < chunks.len() && (#[trigger] chunks[i]).name@ == (
        #[trigger] chunks[j]).name@ ==> chunks[i].data@ == chunks[j].data@
    &&& forall|i: int|
        0 <= i < chunks.len() && store.contains_key((#[trigger] chunks[i]).name@)
            ==> store[chunks[i].name@] == chunks[i].data@
}

/// Chunks that are written to a store are there, where names tell them from one another and from
/// what was in the store.
pub proof fn law_written_chunks_are_held(
    store: Map<Seq<char>, Seq<u8>>,
    chunks: Seq<Chunk>,
)
    requires
        names_are_unambiguous(store, chunks),
    ensures
        holds(stored(store, chunks), chunks),
    decreases chunks.len(),
{
    if chunks.len() > 0 {
        let rest = chunks.drop_last();
        let last = chunks.len() - 1;
        assert(forall|i: int| 0 <= i < rest.len() ==> #[trigger] rest[i] == chunks[i]);
        assert(chunks.last() == chunks[last]);
        law_written_chunks_are_held(store, rest);
        let before = stored(store, rest);
        assert forall|i: int| 0 <= i < chunks.len() implies stored(store, chunks).contains_key(
            (#[trigger] chunks[i]).name@,
        ) && stored(store, chunks)[chunks[i].name@] == chunks[i].data@ by {
            if i < last {
                assert(rest[i] == chunks[i]);
                assert(before.contains_key(rest[i].name@));
            } else if before.contains_key(chunks[last].name@) {
                lemma_stored_origin(store, rest, chunks[last].name@);
            }
        }
    }
}

/// What is in the store under a name was there before, or is one of the chunks that were written.
proof fn lemma_stored_origin(
    store: Map<Seq<char>, Seq<u8>>,
    chunks: Seq<Chunk>,
    name: Seq<char>,
)
    requires
        stored(store, chunks).contains_key(name),
    ensures
        (store.contains_key(name) && stored(store, chunks)[name] == store[name]) || exists|i: int|
            0 <= i < chunks.len() && (#[trigger] chunks[i]).name@ == name && stored(
                store,
                chunks,
            )[name] == chunks[i].data@,
    decreases chunks.len(),
{
    if chunks.len() > 0 {
        let rest = chunks.drop_last();
        assert(chunks.last() == chunks[chunks.len() - 1]);
        if stored(store, rest).contains_key(name) {
            lemma_stored_origin(store, rest, name);
            if exists|i: int|
                0 <= i < rest.len() && (#[trigger] rest[i]).name@ == name && stored(
                    store,
                    rest,
                )[name] == rest[i].data@ {
                let i = choose|i: int|
                    0 <= i < rest.len() && (#[trigger] rest[i]).name@ == name && stored(
                        store,
                        rest,
                    )[name] == rest[i].data@;
                assert(chunks[i] == rest[i]);
            }
        }
    }
}

/// What is written can be read back: a file that is listed in a mapping that lacked it, and whose
/// chunks are written to a store, comes back as it was, where names tell its chunks from one
/// another and from what was in the store.
pub proof fn law_written_file_comes_back(
    store: Map<Seq<char>, Seq<u8>>,
    before: MappingView,
    path: Seq<char>,
    content: Vec<u8>,
    size: nat,
    chunks: Seq<Chunk>,
)
    requires
        size > 0,
        are_chunks_of(chunks, content@, size),
        before.lacks(path),
        names_are_unambiguous(store, chunks),
    ensures
        reconstructed(
            stored(store, chunks),
            before.with_file(path, content@.len() as usize, chunks),
            path,
        ) == Some(content@),
{
    law_written_chunks_are_held(store, chunks);
    law_file_can_be_reconstructed(stored(store, chunks), before, path, content, size, chunks);
}

/// Mappings tell contents apart: where two mappings that lacked a path list the same once a file
/// is listed in each of them at that path, the two files hold the same, provided that one store
/// can hold the chunks of both.
pub proof fn law_mappings_tell_contents_apart(
    store: Map<Seq<char>, Seq<u8>>,
    a_before: MappingView,
    a: Vec<u8>,
    a_chunks: Seq<Chunk>,
    b_before: MappingView,
    b: Vec<u8>,
    b_chunks: Seq<Chunk>,
    path: Seq<char>,
    size: nat,
)
    requires
        size > 0,
        are_chunks_of(a_chunks, a@, size),
        are_chunks_of(b_chunks, b@, size),
        a_before.lacks(path),
        b_before.lacks(path),
        holds(store, a_chunks),
        holds(store, b_chunks),
        a_before.with_file(path, a@.len() as usize, a_chunks) == b_before.with_file(
            path,
            b@.len() as usize,
            b_chunks,
        ),
    ensures
        a@ == b@,
{
    law_file_can_be_reconstructed(store, a_before, path, a, size, a_chunks);
    law_file_can_be_reconstructed(store, b_before, path, b, size, b_chunks);
}

/// The stored JSON tells mappings apart: one text, read as what two mappings were stored as,
/// means that they list the same.
pub proof fn law_json_tells_mappings_apart(json: Seq<char>, a: BlockMapping, b: BlockMapping)
    requires
        json_lists(json) == Some((a@.blocks, a@.lengths)),
        json_lists(json) == Some((b@.blocks, b@.lengths)),
    ensures
        a@ == b@,
{
}

/// To list a file leaves all other files as they were.
pub proof fn law_other_files_are_kept(
    store: Map<Seq<char>, Seq<u8>>,
    before: MappingView,
    path: Seq<char>,
    len: usize,
    chunks: Seq<Chunk>,
    other: Seq<char>,
)
    requires
        other != path,
    ensures
        reconstructed(store, before.with_file(path, len, chunks), other) == reconstructed(
            store,
            before,
            other,
        ),
{
    let after = before.with_file(path, len, chunks);
    lemma_names_with_blocks(before.blocks, path, chunks, other);
    assert(names_of(after.blocks, other) =~= names_of(before.blocks, other));
    assert(after.lengths.drop_last() =~= before.lengths);
}

/// To list a file whose path comes behind all others, in whatever order, keeps a mapping in that
/// order, with no pair of a path and a number twice among its blocks.
pub proof fn law_mapping_stays_in_order(
    before: MappingView,
    path: Seq<char>,
    len: usize,
    chunks: Vec<Chunk>,
    order: spec_fn(Seq<char>, Seq<char>) -> bool,
)
    requires
        before.in_order(order),
        before.is_behind(path, order),
        forall|p: Seq<char>| !#[trigger] order(p, p),
    ensures
        before.with_file(path, len, chunks@).in_order(order),
        before.with_file(path, len, chunks@).lists_no_block_twice(),
{
    assert(chunks.len() == chunks@.len());
    let after = before.with_file(path, len, chunks@);
    let n = before.blocks.len();
    assert forall|i: int, j: int| 0 <= i < j < after.blocks.len() implies order(
        (#[trigger] after.blocks[i]).0,
        (#[trigger] after.blocks[j]).0,
    ) || (after.blocks[i].0 == after.blocks[j].0 && after.blocks[i].1 < after.blocks[j].1) by {
        if j < n {
            assert(after.blocks[i] == before.blocks[i] && after.blocks[j] == before.blocks[j]);
        } else if i < n {
            assert(after.blocks[i] == before.blocks[i]);
        }
    }
    assert forall|i: int, j: int| 0 <= i < j < after.lengths.len() implies order(
        (#[trigger] after.lengths[i]).0,
        (#[trigger] after.lengths[j]).0,
    ) by {
        assert(after.lengths[i] == before.lengths[i]);
        if j < before.lengths.len() {
            assert(after.lengths[j] == before.lengths[j]);
        }
    }
}

/// The mapping that lists these files one after the other, each with its path, its length and its
/// chunks.
pub open spec fn listing_of(files: Seq<(Seq<char>, usize, Vec<Chunk>)>) -> MappingView
    decreases files.len(),
{
    if files.len() == 0 {
        MappingView { blocks: Seq::empty(), lengths: Seq::empty() }
    } else {
        listing_of(files.drop_last()).with_file(
            files.last().0,
            files.last().1,
            files.last().2@,
        )
    }
}

/// A path behind those of all files is behind all that their listing holds.
proof fn lemma_behind_listing(
    files: Seq<(Seq<char>, usize, Vec<Chunk>)>,
    path: Seq<char>,
    order: spec_fn(Seq<char>, Seq<char>) -> bool,
)
    requires
        forall|i: int| 0 <= i < files.len() ==> order((#[trigger] files[i]).0, path),
    ensures
        listing_of(files).is_behind(path, order),
    decreases files.len(),
{
    if files.len() > 0 {
        let rest = files.drop_last();
        assert forall|i: int| 0 <= i < rest.len() implies order((#[trigger] rest[i]).0, path) by {
            assert(rest[i] == files[i]);
        }
        lemma_behind_listing(rest, path, order);
        assert(files.last() == files[files.len() - 1]);
        let before = listing_of(rest);
        let after = listing_of(files);
        assert forall|i: int| 0 <= i < after.blocks.len() implies order(
            (#[trigger] after.blocks[i]).0,
            path,
        ) by {
            if i < before.blocks.len() {
                assert(after.blocks[i] == before.blocks[i]);
            }
        }
        assert forall|i: int| 0 <= i < after.lengths.len() implies order(
            (#[trigger] after.lengths[i]).0,
            path,
        ) by {
            if i < before.lengths.len() {
                assert(after.lengths[i] == before.lengths[i]);
            }
        }
    }
}

/// Files whose paths ascend, in whatever order, are listed in that order: the blocks are sorted by
/// path and number, and no pair of these occurs twice.
pub proof fn law_ascending_files_are_listed_in_order(
    files: Seq<(Seq<char>, usize, Vec<Chunk>)>,
    order: spec_fn(Seq<char>, Seq<char>) -> bool,
)
    requires
        forall|i: int, j: int|
            0 <= i < j < files.len() ==> order((#[trigger] files[i]).0, (#[trigger] files[j]).0),
        forall|p: Seq<char>| !#[trigger] order(p, p),
    ensures
        listing_of(files).in_order(order),
        listing_of(files).lists_no_block_twice(),
    decreases files.len(),
{
    if files.len() > 0 {
        let rest = files.drop_last();
        let last = files.last();
        assert(last == files[files.len() - 1]);
        assert forall|i: int, j: int| 0 <= i < j < rest.len() implies order(
            (#[trigger] rest[i]).0,
            (#[trigger] rest[j]).0,
        ) by {
            assert(rest[i] == files[i] && rest[j] == files[j]);
        }
        law_ascending_files_are_listed_in_order(rest, order);
        assert forall|i: int| 0 <= i < rest.len() implies order((#[trigger] rest[i]).0, last.0) by {
            assert(rest[i] == files[i]);
        }
        lemma_behind_listing(rest, last.0, order);
        law_mapping_stays_in_order(listing_of(rest), last.0, last.1, last.2, order);
    }
}

/// The chunks of these files, file by file.
pub open spec fn chunks_of_files(files: Seq<(Seq<char>, usize, Vec<Chunk>)>) -> Seq<Chunk>
    decreases files.len(),
{
    if files.len() == 0 {
        Seq::empty()
    } else {
        chunks_of_files(files.drop_last()) + files.last().2@
    }
}

/// The store after the chunks of these files were written to it, file by file.
pub open spec fn stored_files(
    store: Map<Seq<char>, Seq<u8>>,
    files: Seq<(Seq<char>, usize, Vec<Chunk>)>,
) -> Map<Seq<char>, Seq<u8>>
    decreases files.len(),
{
    if files.len() == 0 {
        store
    } else {
        stored(stored_files(store, files.drop_last()), files.last().2@)
    }
}

/// Whether these are files with these contents, each listed with its length and its chunks, no
/// path twice.
pub open spec fn is_tree(
    files: Seq<(Seq<char>, usize, Vec<Chunk>)>,
    contents: Seq<Vec<u8>>,
    size: nat,
) -> bool {
    &&& files.len() == contents.len()
    &&& forall|i: int|
        0 <= i < files.len() ==> (#[trigger] files[i]).1 == contents[i]@.len() && are_chunks_of(
            files[i].2@,
            contents[i]@,
            size,
        )
    &&& forall|i: int, j: int|
        0 <= i < j < files.len() ==> (#[trigger] files[i]).0 != (#[trigger] files[j]).0
}

/// To write files one after the other is to write all their chunks.
proof fn lemma_stored_files(
    store: Map<Seq<char>, Seq<u8>>,
    files: Seq<(Seq<char>, usize, Vec<Chunk>)>,
)
    ensures
        stored_files(store, files) == stored(store, chunks_of_files(files)),
    decreases files.len(),
{
    if files.len() > 0 {
        lemma_stored_files(store, files.drop_last());
        law_chunks_are_written_in_turn(
            store,
            chunks_of_files(files.drop_last()),
            files.last().2@,
        );
    }
}

/// A path other than those of the files is lacking in their listing.
proof fn lemma_listing_lacks(files: Seq<(Seq<char>, usize, Vec<Chunk>)>, path: Seq<char>)
    requires
        forall|i: int| 0 <= i < files.len() ==> (#[trigger] files[i]).0 != path,
    ensures
        listing_of(files).lacks(path),
{
    lemma_behind_listing(files, path, |a: Seq<char>, b: Seq<char>| a != b);
}

/// A listed file comes back from a store that holds the chunks of all files.
proof fn lemma_listed_file_comes_back(
    store: Map<Seq<char>, Seq<u8>>,
    files: Seq<(Seq<char>, usize, Vec<Chunk>)>,
    contents: Seq<Vec<u8>>,
    size: nat,
    i: int,
)
    requires
        size > 0,
        is_tree(files, contents, size),
        holds(store, chunks_of_files(files)),
        0 <= i < files.len(),
    ensures
        reconstructed(store, listing_of(files), files[i].0) == Some(contents[i]@),
    decreases files.len(),
{
    let rest = files.drop_last();
    let last = files.len() - 1;
    let before = listing_of(rest);
    let others = chunks_of_files(rest);
    let all = chunks_of_files(files);
    assert(files.last() == files[last]);
    assert(forall|k: int| 0 <= k < rest.len() ==> #[trigger] rest[k] == files[k]);
    if i == last {
        assert forall|k: int| 0 <= k < files[last].2@.len() implies store[(
        #[trigger] files[last].2@[k]).name@] == files[last].2@[k].data@ by {
            assert(all[others.len() + k] == files[last].2@[k]);
        }
        lemma_listing_lacks(rest, files[last].0);
        law_file_can_be_reconstructed(
            store,
            before,
            files[last].0,
            contents[last],
            size,
            files[last].2@,
        );
    } else {
        let rest_contents = contents.drop_last();
        assert(forall|k: int| 0 <= k < rest.len() ==> #[trigger] rest_contents[k] == contents[k]);
        assert(is_tree(rest, rest_contents, size));
        assert forall|k: int| 0 <= k < others.len() implies store.contains_key(
            (#[trigger] others[k]).name@,
        ) && store[others[k].name@] == others[k].data@ by {
            assert(all[k] == others[k]);
        }
        lemma_listed_file_comes_back(store, rest, rest_contents, size, i);
        law_other_files_are_kept(
            store,
            before,
            files[last].0,
            files[last].1,
            files[last].2@,
            files[i].0,
        );
    }
}

/// A whole tree can be reconstructed from one mapping and one store: where the files of a tree are
/// listed one after the other, and their chunks written to a store that grows with them, every
/// file comes back as it was, and no other path gives a file, provided that names tell the chunks
/// from one another and from what was in the store.
pub proof fn law_tree_can_be_reconstructed(
    store: Map<Seq<char>, Seq<u8>>,
    files: Seq<(Seq<char>, usize, Vec<Chunk>)>,
    contents: Seq<Vec<u8>>,
    size: nat,
)
    requires
        size > 0,
        is_tree(files, contents, size),
        names_are_unambiguous(store, chunks_of_files(files)),
    ensures
        forall|i: int|
            0 <= i < files.len() ==> reconstructed(
                stored_files(store, files),
                listing_of(files),
                (#[trigger] files[i]).0,
            ) == Some(contents[i]@),
        forall|path: Seq<char>|
            (forall|i: int| 0 <= i < files.len() ==> (#[trigger] files[i]).0 != path)
                ==> #[trigger] reconstructed(
                stored_files(store, files),
                listing_of(files),
                path,
            ) is None,
{
    let grown = stored_files(store, files);
    lemma_stored_files(store, files);
    law_written_chunks_are_held(store, chunks_of_files(files));
    assert forall|i: int| 0 <= i < files.len() implies reconstructed(
        grown,
        listing_of(files),
        (#[trigger] files[i]).0,
    ) == Some(contents[i]@) by {
        lemma_listed_file_comes_back(grown, files, contents, size, i);
    }
    assert forall|path: Seq<char>|
        (forall|i: int| 0 <= i < files.len() ==> (#[trigger] files[i]).0 != path) implies
        #[trigger] reconstructed(grown, listing_of(files), path) is None by {
        lemma_listing_lacks(files, path);
        lemma_lacking(listing_of(files), path);
    }
}

/// Chunks cover the content and no more: there are just as many of `size` bytes as the content
/// needs, each has `size` bytes, byte `j` of chunk `i` is the content's byte `i * size + j`, or
/// zero behind the content's end, and each is named by the digest of all its bytes, zeros and all.
pub proof fn law_chunks_cover_the_content(chunks: Seq<Chunk>, content: Seq<u8>, size: nat)
    requires
        size > 0,
        are_chunks_of(chunks, content, size),
    ensures
        content.len() == 0 <==> chunks.len() == 0,
        content.len() > 0 ==> (chunks.len() - 1) * size < content.len() <= chunks.len() * size,
        forall|i: int|
            0 <= i < chunks.len() ==> (#[trigger] chunks[i]).data@.len() == size
                && chunks[i].name@ == hex_text(sha256_of(chunks[i].data@)),
        forall|i: int, j: int|
            0 <= i < chunks.len() && 0 <= j < size ==> #[trigger] chunks[i].data@[j] == if i * size
                + j < content.len() {
                content[i * size + j]
            } else {
                0
            },
{
    let count = chunks.len();
    lemma_count_bounds(content.len(), size);
    assert((count - 1) * size == count * size - size) by (nonlinear_arith);
    if content.len() == 0 {
        assert(count == 0) by (nonlinear_arith)
            requires
                count * size < size,
        ;
    }
    if count == 0 {
        assert(count * size == 0) by (nonlinear_arith)
            requires
                count == 0,
        ;
    }
    assert forall|i: int| 0 <= i < chunks.len() implies (#[trigger] chunks[i]).data@.len() == size
        && chunks[i].name@ == hex_text(sha256_of(chunks[i].data@)) by {
        assert(chunks[i].is_chunk_of(content, size, i));
    }
    assert forall|i: int, j: int|
        0 <= i < chunks.len() && 0 <= j < size implies #[trigger] chunks[i].data@[j] == if i * size
        + j < content.len() {
        content[i * size + j]
    } else {
        0
    } by {
        assert(chunks[i].is_chunk_of(content, size, i));
    }
}

/// A byte is written as two of the digits `0123456789abcdef`, the high one first, and bytes are
/// written one after the other.
pub proof fn law_bytes_are_written_in_hexadecimal(bytes: Seq<u8>)
    ensures
        hex_text(bytes).len() == 2 * bytes.len(),
        forall|i: int|
            0 <= i < bytes.len() ==> {
                let high = hex_text(bytes)[2 * i];
                let low = hex_text(bytes)[2 * i + 1];
                &&& high == "0123456789abcdef"@[#[trigger] bytes[i] as int / 16]
                &&& low == "0123456789abcdef"@[bytes[i] as int % 16]
            },
    decreases bytes.len(),
{
    reveal_strlit("0123456789abcdef");
    if bytes.len() > 0 {
        let rest = bytes.drop_last();
        law_bytes_are_written_in_hexadecimal(rest);
        assert forall|i: int| 0 <= i < bytes.len() implies {
            let high = hex_text(bytes)[2 * i];
            let low = hex_text(bytes)[2 * i + 1];
            &&& high == "0123456789abcdef"@[#[trigger] bytes[i] as int / 16]
            &&& low == "0123456789abcdef"@[bytes[i] as int % 16]
        } by {
            if i < rest.len() {
                assert(rest[i] == bytes[i]);
                assert(hex_text(bytes)[2 * i] == hex_text(rest)[2 * i]);
                assert(hex_text(bytes)[2 * i + 1] == hex_text(rest)[2 * i + 1]);
            } else {
                lemma_hex_digit(bytes[i] / 16);
                lemma_hex_digit(bytes[i] % 16);
            }
        }
    }
}

proof fn lemma_hex_digit(n: u8)
    requires
        n < 16,
    ensures
        hex_digit(n) == "0123456789abcdef"@[n as int],
{
    reveal_strlit("0123456789abcdef");
}

/// A listed file adds to what a mapping lists, and changes none of it: behind the blocks that were
/// there come one block for each chunk, with the path, the number of the chunk and its name, and
/// behind the lengths the path with the length of the file.
pub proof fn law_file_is_listed_block_by_block(
    before: MappingView,
    path: Seq<char>,
    len: usize,
    chunks: Vec<Chunk>,
)
    ensures
        ({
            let after = before.with_file(path, len, chunks@);
            let n = before.blocks.len() as int;
            &&& after.blocks.len() == n + chunks@.len()
            &&& forall|i: int| 0 <= i < n ==> #[trigger] after.blocks[i] == before.blocks[i]
            &&& forall|i: int|
                0 <= i < chunks@.len() ==> {
                    let block = after.blocks[n + i];
                    &&& block.0 == path
                    &&& block.1 == i
                    &&& block.2 == (#[trigger] chunks@[i]).name@
                }
            &&& after.lengths.len() == before.lengths.len() + 1
            &&& forall|i: int|
                0 <= i < before.lengths.len() ==> #[trigger] after.lengths[i] == before.lengths[i]
            &&& after.lengths.last() == (path, len)
        }),
{
    assert(chunks.len() == chunks@.len());
}

/// A mapping says just what its two lists hold.
pub proof fn law_mapping_is_its_lists(mapping: BlockMapping)
    ensures
        mapping@.blocks.len() == mapping.blocks@.len(),
        forall|i: int|
            0 <= i < mapping.blocks@.len() ==> {
                let block = #[trigger] mapping@.blocks[i];
                &&& block.0 == mapping.blocks@[i].0@
                &&& block.1 == mapping.blocks@[i].1
                &&& block.2 == mapping.blocks@[i].2@
            },
        mapping@.lengths.len() == mapping.lengths@.len(),
        forall|i: int|
            0 <= i < mapping.lengths@.len() ==> {
                let length = #[trigger] mapping@.lengths[i];
                &&& length.0 == mapping.lengths@[i].0@
                &&& length.1 == mapping.lengths@[i].1
            },
{
}

/// What a written chunk does to a store: under its name there is what was there, or else the chunk,
/// and under every other name nothing changes.
pub proof fn law_written_chunk_changes_only_its_name(
    store: Map<Seq<char>, Seq<u8>>,
    chunks: Seq<Chunk>,
    chunk: Chunk,
    name: Seq<char>,
)
    ensures
        stored(store, Seq::empty()) == store,
        ({
            let before = stored(store, chunks);
            let after = stored(store, chunks.push(chunk));
            &&& after.contains_key(name) <==> before.contains_key(name) || name == chunk.name@
            &&& before.contains_key(name) ==> after[name] == before[name]
            &&& !before.contains_key(chunk.name@) ==> after[chunk.name@] == chunk.data@
        }),
{
    assert(chunks.push(chunk).drop_last() =~= chunks);
}

} // verus!
