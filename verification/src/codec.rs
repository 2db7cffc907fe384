//! The compact encodings that area files use for terrain, walls, layers and
//! elevation: kinds tables, byte codes and base64 text.
use vstd::prelude::*;

verus! {

/// The bytes that `text` encodes in the standard base64 alphabet, padded
/// or not, or `None` where `text` is not a valid encoding.
pub uninterp spec fn base64_decoding(text: Seq<char>) -> Option<Seq<u8>>;

/// The code point of the standard base64 alphabet's character for the
/// six-bit value `v`: `A`-`Z`, `a`-`z`, `0`-`9`, `+` and `/`.
pub open spec fn base64_code(v: int) -> int {
    if v < 26 {
        65 + v
    } else if v < 52 {
        97 + (v - 26)
    } else if v < 62 {
        48 + (v - 52)
    } else if v == 62 {
        43
    } else {
        47
    }
}

/// The byte at `i`, or zero past the end.
pub open spec fn byte_or_zero(bytes: Seq<u8>, i: int) -> int {
    if i < bytes.len() {
        bytes[i] as int
    } else {
        0
    }
}

/// The `k`th six-bit value of `bytes` read as a run of bits, most
/// significant first, with zero bits past the end.
pub open spec fn sextet(bytes: Seq<u8>, k: int) -> int {
    let b0 = byte_or_zero(bytes, 3 * (k / 4));
    let b1 = byte_or_zero(bytes, 3 * (k / 4) + 1);
    let b2 = byte_or_zero(bytes, 3 * (k / 4) + 2);
    if k % 4 == 0 {
        b0 / 4
    } else if k % 4 == 1 {
        (b0 % 4) * 16 + b1 / 16
    } else if k % 4 == 2 {
        (b1 % 16) * 4 + b2 / 64
    } else {
        b2 % 64
    }
}

/// The character of the standard base64 alphabet for the six-bit value `v`.
pub open spec fn base64_char(v: int) -> char {
    (base64_code(v) as u8) as char
}

/// The text that the standard, padded base64 alphabet gives for `bytes`:
/// four characters for each three bytes or part of three, one per six bits
/// that hold a bit of `bytes`, then `=` up to the end.
pub open spec fn base64_encoding(bytes: Seq<u8>) -> Seq<char> {
    Seq::new(4 * ((bytes.len() + 2) / 3), |k: int| if 6 * k < 8 * bytes.len() {
        base64_char(sextet(bytes, k))
    } else {
        '='
    })
}

#[verifier::external_type_specification]
#[verifier::external_body]
pub struct ExDecodeError(base64::DecodeError);

/// Calls `base64::encode`, the standard alphabet with padding.
/// The contract claims that the text is `base64_encoding` of the bytes,
/// and that decoding that text gives the same bytes back.
#[verifier::external_body]
fn base64_encode(bytes: &[u8]) -> (text: String)
    requires
        bytes@.len() <= isize::MAX,
    ensures
        text@ == base64_encoding(bytes@),
        base64_decoding(text@) == Some(bytes@),
{
    base64::encode(bytes)
}

/// Calls `base64::decode`, the standard alphabet with padding.
/// The contract claims that it succeeds exactly where the named decoding is
/// defined, and then returns those bytes. Its one panic, an overflow of the
/// text's byte length plus three, needs a length no `str` can have (at most
/// `isize::MAX` bytes).
#[verifier::external_body]
fn base64_decode(text: &str) -> (res: Result<Vec<u8>, base64::DecodeError>)
    ensures
        match res {
            Ok(bytes) => base64_decoding(text@) == Some(bytes@),
            Err(_) => base64_decoding(text@) is None,
        },
{
    base64::decode(text)
}


/// Why an area's encoded data could not be read or written.
#[derive(Debug)]
pub enum AreaCodecError {
    /// The text is not valid base64.
    Base64(base64::DecodeError),
    /// A terrain byte names no kind of the kinds table.
    InvalidTerrainIndex,
    /// The wall bytes do not form a non-empty run of (kind, elevation) pairs.
    InvalidWallsEncoding,
    /// A wall byte names no kind of the kinds table.
    InvalidWallsIndex,
    /// The layer bytes do not form a non-empty run of four byte positions.
    InvalidLayerEncoding,
    /// More distinct kinds than a byte can number (255 at most).
    TooManyKinds,
}

/// A table of kind ids, each numbered by its position.
/// It holds no id twice and at most 255 of them, as the byte 255 stands
/// for "no kind".
pub struct KindTable {
    kinds: Vec<String>,
}

impl View for KindTable {
    type V = Seq<Seq<char>>;

    closed spec fn view(&self) -> Seq<Seq<char>> {
        self.kinds.deep_view()
    }
}

/// The byte that stands for "no kind".
pub const NO_KIND: u8 = 255;

/// The distinct ids among `entries`, in the order of their first appearance.
pub open spec fn kinds_of(entries: Seq<Option<Seq<char>>>) -> Seq<Seq<char>>
    decreases entries.len(),
{
    if entries.len() == 0 {
        Seq::empty()
    } else {
        let k = kinds_of(entries.drop_last());
        match entries.last() {
            None => k,
            Some(id) => if k.contains(id) {
                k
            } else {
                k.push(id)
            },
        }
    }
}

/// The byte that numbers `entry` in `kinds`.
pub open spec fn kind_code(kinds: Seq<Seq<char>>, entry: Option<Seq<char>>) -> u8 {
    match entry {
        None => NO_KIND,
        Some(id) => kinds.index_of(id) as u8,
    }
}

/// The bytes that number each of `entries` in `kinds`.
pub open spec fn kind_codes(kinds: Seq<Seq<char>>, entries: Seq<Option<Seq<char>>>) -> Seq<u8> {
    Seq::new(entries.len(), |i: int| kind_code(kinds, entries[i]))
}

/// The kind that `code` numbers in `kinds`.
pub open spec fn kind_entry(kinds: Seq<Seq<char>>, code: u8) -> Option<Seq<char>> {
    if code == NO_KIND {
        None
    } else {
        Some(kinds[code as int])
    }
}

/// Whether `code` numbers a kind of a table of `n` kinds, or no kind.
pub open spec fn code_valid(n: nat, code: u8) -> bool {
    code == NO_KIND || code < n
}

pub proof fn lemma_index_of_unique(s: Seq<Seq<char>>, j: int)
    requires
        s.no_duplicates(),
        0 <= j < s.len(),
    ensures
        s.index_of(s[j]) == j,
{
    assert(s[j] == s[j]);
    let k = s.index_of(s[j]);
    assert(0 <= k < s.len() && s[k] == s[j]);
}

/// Every id of `entries` is in `kinds_of(entries)`, which holds no id twice.
pub proof fn lemma_kinds_of(entries: Seq<Option<Seq<char>>>)
    ensures
        kinds_of(entries).no_duplicates(),
        forall|i: int| 0 <= i < entries.len() && entries[i] is Some
            ==> kinds_of(entries).contains(#[trigger] entries[i]->0),
        forall|k: Seq<char>| kinds_of(entries).contains(k)
            ==> entries.contains(Some(k)),
    decreases entries.len(),
{
    if entries.len() > 0 {
        let init = entries.drop_last();
        lemma_kinds_of(init);
        let k = kinds_of(init);
        assert forall|i: int| 0 <= i < entries.len() && entries[i] is Some
            implies kinds_of(entries).contains(#[trigger] entries[i]->0) by {
            if i < entries.len() - 1 {
                assert(init[i] == entries[i]);
                let w = choose|w: int| 0 <= w < k.len() && k[w] == entries[i]->0;
                match entries.last() {
                    None => {},
                    Some(id) => if !k.contains(id) {
                        assert(k.push(id)[w] == k[w]);
                    },
                }
            } else {
                match entries.last() {
                    None => {},
                    Some(id) => if !k.contains(id) {
                        assert(k.push(id)[k.len() as int] == id);
                    },
                }
            }
        }
        assert forall|x: Seq<char>| kinds_of(entries).contains(x)
            implies entries.contains(Some(x)) by {
            if k.contains(x) {
                let w = choose|w: int| 0 <= w < init.len() && init[w] == Some(x);
                assert(entries[w] == Some(x));
            } else {
                assert(entries[entries.len() - 1] == Some(x));
            }
        }
    }
}

/// The kinds of a prefix of `entries` are a prefix of the kinds of `entries`.
pub proof fn lemma_kinds_of_prefix(entries: Seq<Option<Seq<char>>>, i: int)
    requires
        0 <= i <= entries.len(),
    ensures
        kinds_of(entries.take(i)).len() <= kinds_of(entries).len(),
        kinds_of(entries).take(kinds_of(entries.take(i)).len() as int) == kinds_of(entries.take(i)),
    decreases entries.len() - i,
{
    if i < entries.len() {
        lemma_kinds_of_prefix(entries, i + 1);
        assert(entries.take(i + 1).drop_last() == entries.take(i));
        let a = kinds_of(entries.take(i));
        let b = kinds_of(entries.take(i + 1));
        let c = kinds_of(entries);
        assert(b.take(a.len() as int) == a);
        assert(c.take(a.len() as int) == c.take(b.len() as int).take(a.len() as int));
    } else {
        assert(entries.take(i) == entries);
    }
}

impl KindTable {
    /// Holds no id twice and at most 255 ids.
    pub open spec fn wf(&self) -> bool {
        self@.no_duplicates() && self@.len() <= 255
    }

    /// An empty table.
    pub fn new() -> (t: KindTable)
        ensures
            t.wf(),
            t@ == Seq::<Seq<char>>::empty(),
    {
        KindTable { kinds: Vec::new() }
    }

    /// The ids, numbered by position.
    pub fn kinds(&self) -> (k: &Vec<String>)
        ensures
            k.deep_view() == self@,
    {
        &self.kinds
    }

    /// The position of `id` in the table, if it is there.
    pub fn position(&self, id: &String) -> (r: Option<usize>)
        ensures
            match r {
                Some(k) => k < self@.len() && self@[k as int] == id@,
                None => !self@.contains(id@),
            },
    {
        let n = self.kinds.len();
        let mut i: usize = 0;
        while i < n
            invariant
                n == self.kinds@.len(),
                i <= n,
                forall|j: int| 0 <= j < i ==> self@[j] != id@,
            decreases n - i,
        {
            if self.kinds[i] == *id {
                return Some(i);
            }
            i = i + 1;
        }
        proof {
            assert forall|j: int| 0 <= j < self@.len() implies self@[j] != id@ by {}
        }
        None
    }
}

/// The byte that numbers `entry` in `table`, adding a new id at the end of
/// the table. The byte 255 stands for no entry; a 256th distinct id is an
/// error and leaves the table as it was.
pub fn entry_index(table: &mut KindTable, entry: &Option<String>) -> (r: Result<u8, AreaCodecError>)
    requires
        old(table).wf(),
    ensures
        final(table).wf(),
        match entry {
            None => r matches Ok(c) && c == NO_KIND && final(table)@ == old(table)@,
            Some(id) => if old(table)@.contains(id@) {
                &&& final(table)@ == old(table)@
                &&& r matches Ok(c) && c < old(table)@.len() && old(table)@[c as int] == id@
            } else if old(table)@.len() == 255 {
                final(table)@ == old(table)@ && r matches Err(AreaCodecError::TooManyKinds)
            } else {
                &&& final(table)@ == old(table)@.push(id@)
                &&& r matches Ok(c) && c == old(table)@.len()
            },
        },
{
    match entry {
        None => Ok(NO_KIND),
        Some(id) => {
            match table.position(id) {
                Some(k) => Ok(k as u8),
                None => {
                    let n = table.kinds.len();
                    if n >= 255 {
                        Err(AreaCodecError::TooManyKinds)
                    } else {
                        table.kinds.push(id.clone());
                        proof {
                            assert(table@ =~= old(table)@.push(id@));
                        }
                        Ok(n as u8)
                    }
                },
            }
        },
    }
}


/// A kinds table with the base64 text of one byte per entry.
pub struct U8WithKinds {
    pub kinds: Vec<String>,
    pub entries: String,
}

/// The entries that `bytes` number in `kinds`, or `None` where a byte names
/// no kind.
pub open spec fn spec_entries_from_codes(kinds: Seq<Seq<char>>, bytes: Seq<u8>) -> Option<Seq<Option<Seq<char>>>> {
    if forall|i: int| 0 <= i < bytes.len() ==> code_valid(kinds.len(), #[trigger] bytes[i]) {
        Some(Seq::new(bytes.len(), |i: int| kind_entry(kinds, bytes[i])))
    } else {
        None
    }
}

/// Numbers the entries of `entries` (the terrain of an area, one per tile)
/// in a kinds table built in order of first appearance, and gives the
/// table with the base64 text of the numbers.
/// Fails exactly where there are more than 255 distinct kinds.
pub fn encode_terrain(entries: &Vec<Option<String>>) -> (r: Result<U8WithKinds, AreaCodecError>)
    requires
        entries@.len() <= isize::MAX,
    ensures
        r is Ok <==> kinds_of(entries.deep_view()).len() <= 255,
        r matches Err(e) ==> e is TooManyKinds,
        r matches Ok(u) ==> {
            &&& u.kinds.deep_view() == kinds_of(entries.deep_view())
            &&& u.entries@ == base64_encoding(kind_codes(kinds_of(entries.deep_view()), entries.deep_view()))
            &&& base64_decoding(u.entries@) == Some(kind_codes(kinds_of(entries.deep_view()), entries.deep_view()))
            &&& base64_decoding(u.entries@) matches Some(b)
                && spec_entries_from_codes(u.kinds.deep_view(), b) == Some(entries.deep_view())
        },
{
    let ghost all = entries.deep_view();
    let mut table = KindTable::new();
    let mut bytes: Vec<u8> = Vec::new();
    let n = entries.len();
    let mut i: usize = 0;
    while i < n
        invariant
            n == entries@.len(),
            all == entries.deep_view(),
            i <= n,
            table.wf(),
            table@ == kinds_of(all.take(i as int)),
            bytes@ == kind_codes(table@, all.take(i as int)),
        decreases n - i,
    {
        let ghost before = table@;
        proof {
            assert(all.take(i + 1).drop_last() == all.take(i as int));
            assert(all[i as int] == entries@[i as int].deep_view());
            lemma_kinds_of(all.take(i as int));
        }
        let code = match entry_index(&mut table, &entries[i]) {
            Ok(c) => c,
            Err(e) => {
                proof {
                    assert(kinds_of(all.take(i + 1)).len() == 256);
                    lemma_kinds_of_prefix(all, i + 1);
                }
                return Err(e);
            },
        };
        bytes.push(code);
        proof {
            let t = all.take(i + 1);
            assert forall|j: int| 0 <= j < t.len() implies #[trigger] bytes@[j] == kind_code(table@, t[j]) by {
                if j < i {
                    assert(t[j] == all.take(i as int)[j]);
                    match t[j] {
                        None => {},
                        Some(id) => {
                            let c = before.index_of(id);
                            assert(all.take(i as int)[j] is Some);
                            assert(before.contains(id));
                            assert(0 <= c < before.len() && before[c] == id);
                            assert(table@[c] == id);
                            lemma_index_of_unique(table@, c);
                        },
                    }
                } else {
                    match t[j] {
                        None => {},
                        Some(id) => {
                            let c = bytes@[j];
                            assert(table@[c as int] == id);
                            lemma_index_of_unique(table@, c as int);
                        },
                    }
                }
            }
            assert(bytes@ =~= kind_codes(table@, t));
        }
        i = i + 1;
    }
    proof {
        assert(all.take(n as int) == all);
    }
    let text = base64_encode(bytes.as_slice());
    proof {
        lemma_terrain_codes_roundtrip(all);
    }
    Ok(U8WithKinds { kinds: table.kinds().clone(), entries: text })
}

/// The entries that `bytes` number in `kinds`: 255 is no entry, any other
/// byte must be a position of `kinds`.
pub fn entries_from_codes(kinds: &Vec<String>, bytes: &Vec<u8>) -> (r: Result<Vec<Option<String>>, AreaCodecError>)
    ensures
        match spec_entries_from_codes(kinds.deep_view(), bytes@) {
            Some(out) => r matches Ok(v) && v.deep_view() == out,
            None => r matches Err(AreaCodecError::InvalidTerrainIndex),
        },
{
    let ghost k = kinds.deep_view();
    let mut out: Vec<Option<String>> = Vec::new();
    let n = bytes.len();
    let mut i: usize = 0;
    while i < n
        invariant
            n == bytes@.len(),
            k == kinds.deep_view(),
            i <= n,
            out@.len() == i,
            forall|j: int| 0 <= j < i ==> code_valid(k.len(), #[trigger] bytes@[j]),
            forall|j: int| 0 <= j < i ==> (#[trigger] out@[j]).deep_view() == kind_entry(k, bytes@[j]),
        decreases n - i,
    {
        let b = bytes[i];
        if b == NO_KIND {
            out.push(None);
        } else if (b as usize) >= kinds.len() {
            return Err(AreaCodecError::InvalidTerrainIndex);
        } else {
            out.push(Some(kinds[b as usize].clone()));
        }
        i = i + 1;
    }
    proof {
        assert(out.deep_view() =~= Seq::new(bytes@.len(), |j: int| kind_entry(k, bytes@[j])));
    }
    Ok(out)
}

/// Reads the terrain of an area: base64 text of one byte per tile,
/// numbering the tile's kind in `input.kinds` (255 for none).
pub fn decode_terrain(input: &U8WithKinds) -> (r: Result<Vec<Option<String>>, AreaCodecError>)
    ensures
        match base64_decoding(input.entries@) {
            None => r matches Err(AreaCodecError::Base64(_)),
            Some(bytes) => match spec_entries_from_codes(input.kinds.deep_view(), bytes) {
                Some(out) => r matches Ok(v) && v.deep_view() == out,
                None => r matches Err(AreaCodecError::InvalidTerrainIndex),
            },
        },
{
    let bytes = match base64_decode(input.entries.as_str()) {
        Ok(b) => b,
        Err(e) => return Err(AreaCodecError::Base64(e)),
    };
    entries_from_codes(&input.kinds, &bytes)
}

/// Decoding the numbers of a terrain in its own kinds table gives the
/// terrain back, wherever it has at most 255 kinds.
pub proof fn lemma_terrain_codes_roundtrip(entries: Seq<Option<Seq<char>>>)
    requires
        kinds_of(entries).len() <= 255,
    ensures
        spec_entries_from_codes(kinds_of(entries), kind_codes(kinds_of(entries), entries)) == Some(entries),
{
    let k = kinds_of(entries);
    let codes = kind_codes(k, entries);
    lemma_kinds_of(entries);
    assert forall|i: int| 0 <= i < codes.len() implies code_valid(k.len(), #[trigger] codes[i])
        && kind_entry(k, codes[i]) == entries[i] by {
        match entries[i] {
            None => {},
            Some(id) => {
                assert(k.contains(id));
                let c = k.index_of(id);
                assert(0 <= c < k.len() && k[c] == id);
            },
        }
    }
    assert(Seq::new(codes.len(), |i: int| kind_entry(k, codes[i])) =~= entries);
}


/// Extending a table at its end keeps the numbers of the ids it holds.
pub proof fn lemma_index_of_extended(before: Seq<Seq<char>>, after: Seq<Seq<char>>, id: Seq<char>)
    requires
        after.no_duplicates(),
        before.len() <= after.len(),
        after.take(before.len() as int) == before,
        before.contains(id),
    ensures
        after.index_of(id) == before.index_of(id),
        0 <= before.index_of(id) < before.len(),
        before[before.index_of(id)] == id,
{
    let c = before.index_of(id);
    assert(0 <= c < before.len() && before[c] == id);
    assert(after[c] == after.take(before.len() as int)[c]);
    lemma_index_of_unique(after, c);
}

/// The kind ids of a run of walls.
pub open spec fn wall_kinds(walls: Seq<(u8, Option<Seq<char>>)>) -> Seq<Option<Seq<char>>> {
    Seq::new(walls.len(), |i: int| walls[i].1)
}

/// Two bytes per wall: the number of its kind in `kinds`, then its elevation.
pub open spec fn wall_codes(kinds: Seq<Seq<char>>, walls: Seq<(u8, Option<Seq<char>>)>) -> Seq<u8> {
    Seq::new(2 * walls.len(), |i: int| if i % 2 == 0 {
        kind_code(kinds, walls[i / 2].1)
    } else {
        walls[i / 2].0
    })
}

/// Whether some complete pair of `bytes` has a kind byte that names no kind
/// of a table of `n` kinds.
pub open spec fn walls_index_error(n: nat, bytes: Seq<u8>) -> bool {
    exists|j: int| 0 <= j < bytes.len() / 2 && !code_valid(n, #[trigger] bytes[2 * j])
}

/// The walls that `bytes` encode: a non-empty run of (kind, elevation)
/// pairs whose kinds all stand in `kinds`.
pub open spec fn spec_walls_from_codes(kinds: Seq<Seq<char>>, bytes: Seq<u8>) -> Option<Seq<(u8, Option<Seq<char>>)>> {
    if bytes.len() > 0 && bytes.len() % 2 == 0 && !walls_index_error(kinds.len(), bytes) {
        Some(Seq::new(bytes.len() / 2, |j: int| (bytes[2 * j + 1], kind_entry(kinds, bytes[2 * j]))))
    } else {
        None
    }
}

/// The error that reading `bytes` as walls gives, where it fails.
pub open spec fn walls_error_is(kinds: Seq<Seq<char>>, bytes: Seq<u8>, e: AreaCodecError) -> bool {
    if walls_index_error(kinds.len(), bytes) {
        e is InvalidWallsIndex
    } else {
        e is InvalidWallsEncoding
    }
}

/// Numbers the kinds of `walls` in a kinds table built in order of first
/// appearance, and gives the table with the base64 text of two bytes per
/// wall: kind number, then elevation.
/// Fails exactly where there are more than 255 distinct kinds.
pub fn encode_walls(walls: &Vec<(u8, Option<String>)>) -> (r: Result<U8WithKinds, AreaCodecError>)
    requires
        2 * walls@.len() <= isize::MAX,
    ensures
        r is Ok <==> kinds_of(wall_kinds(walls.deep_view())).len() <= 255,
        r matches Err(e) ==> e is TooManyKinds,
        r matches Ok(u) ==> {
            let k = kinds_of(wall_kinds(walls.deep_view()));
            &&& u.kinds.deep_view() == k
            &&& u.entries@ == base64_encoding(wall_codes(k, walls.deep_view()))
            &&& base64_decoding(u.entries@) == Some(wall_codes(k, walls.deep_view()))
            &&& walls@.len() > 0 ==> (base64_decoding(u.entries@) matches Some(b)
                && spec_walls_from_codes(u.kinds.deep_view(), b) == Some(walls.deep_view()))
        },
{
    let ghost all = walls.deep_view();
    let ghost ids = wall_kinds(all);
    let mut table = KindTable::new();
    let mut bytes: Vec<u8> = Vec::new();
    let n = walls.len();
    let mut i: usize = 0;
    while i < n
        invariant
            n == walls@.len(),
            all == walls.deep_view(),
            ids == wall_kinds(all),
            i <= n,
            table.wf(),
            table@ == kinds_of(ids.take(i as int)),
            bytes@ == wall_codes(table@, all.take(i as int)),
        decreases n - i,
    {
        let ghost before = table@;
        proof {
            assert(ids.take(i + 1).drop_last() == ids.take(i as int));
            assert(ids[i as int] == walls@[i as int].1.deep_view());
            lemma_kinds_of(ids.take(i as int));
        }
        let level = walls[i].0;
        let code = match entry_index(&mut table, &walls[i].1) {
            Ok(c) => c,
            Err(e) => {
                proof {
                    assert(kinds_of(ids.take(i + 1)).len() == 256);
                    lemma_kinds_of_prefix(ids, i + 1);
                }
                return Err(e);
            },
        };
        bytes.push(code);
        bytes.push(level);
        proof {
            let t = all.take(i + 1);
            assert(table@.take(before.len() as int) =~= before);
            assert forall|j: int| 0 <= j < 2 * t.len() implies #[trigger] bytes@[j] == (if j % 2 == 0 {
                kind_code(table@, t[j / 2].1)
            } else {
                t[j / 2].0
            }) by {
                if j < 2 * i {
                    assert(t[j / 2] == all.take(i as int)[j / 2]);
                    if j % 2 == 0 {
                        match t[j / 2].1 {
                            None => {},
                            Some(id) => {
                                assert(ids.take(i as int)[j / 2] == Some(id));
                                lemma_kinds_of(ids.take(i as int));
                                lemma_index_of_extended(before, table@, id);
                            },
                        }
                    }
                } else if j % 2 == 0 {
                    assert(j / 2 == i);
                    match t[j / 2].1 {
                        None => {},
                        Some(id) => {
                            lemma_index_of_unique(table@, code as int);
                        },
                    }
                } else {
                    assert(j / 2 == i);
                }
            }
            assert(bytes@ =~= wall_codes(table@, t));
        }
        i = i + 1;
    }
    proof {
        assert(all.take(n as int) == all);
        assert(ids.take(n as int) == ids);
    }
    let text = base64_encode(bytes.as_slice());
    proof {
        if n > 0 {
            lemma_wall_codes_roundtrip(all);
        }
    }
    Ok(U8WithKinds { kinds: table.kinds().clone(), entries: text })
}

/// The walls that `bytes` encode in `kinds`, two bytes each: kind number
/// (255 for none), then elevation.
pub fn walls_from_codes(kinds: &Vec<String>, bytes: &Vec<u8>) -> (r: Result<Vec<(u8, Option<String>)>, AreaCodecError>)
    ensures
        match spec_walls_from_codes(kinds.deep_view(), bytes@) {
            Some(out) => r matches Ok(v) && v.deep_view() == out,
            None => r matches Err(e) && walls_error_is(kinds.deep_view(), bytes@, e),
        },
{
    let ghost k = kinds.deep_view();
    let mut out: Vec<(u8, Option<String>)> = Vec::new();
    let n = bytes.len();
    let mut i: usize = 0;
    loop
        invariant_except_break
            i < n || i == 0,
        invariant
            n == bytes@.len(),
            k == kinds.deep_view(),
            i == 2 * out@.len(),
            i <= n,
            forall|j: int| 0 <= j < out@.len() ==> code_valid(k.len(), #[trigger] bytes@[2 * j]),
            forall|j: int| 0 <= j < out@.len() ==> (#[trigger] out@[j]).deep_view()
                == (bytes@[2 * j + 1], kind_entry(k, bytes@[2 * j])),
        ensures
            i == n,
            n > 0,
        decreases n - i,
    {
        if n - i < 2 {
            proof {
                if walls_index_error(k.len(), bytes@) {
                    let j = choose|j: int| 0 <= j < bytes@.len() / 2 && !code_valid(k.len(), #[trigger] bytes@[2 * j]);
                    assert(j < out@.len());
                }
            }
            return Err(AreaCodecError::InvalidWallsEncoding);
        }
        let elev = bytes[i + 1];
        let b = bytes[i];
        if b == NO_KIND {
            out.push((elev, None));
        } else if (b as usize) >= kinds.len() {
            proof {
                let j = out@.len() as int;
                assert(2 * j == i);
                assert(!code_valid(k.len(), bytes@[2 * j]));
                assert(walls_index_error(k.len(), bytes@));
            }
            return Err(AreaCodecError::InvalidWallsIndex);
        } else {
            out.push((elev, Some(kinds[b as usize].clone())));
        }
        i = i + 2;
        if i == n {
            break;
        }
    }
    proof {
        assert(out@.len() == bytes@.len() / 2);
        assert(!walls_index_error(k.len(), bytes@));
        assert(out.deep_view() =~= Seq::new(bytes@.len() / 2, |j: int| (bytes@[2 * j + 1], kind_entry(k, bytes@[2 * j]))));
    }
    Ok(out)
}

/// Reads the walls of an area: base64 text of two bytes per tile, the
/// number of the wall kind in `input.kinds` (255 for none) and the
/// elevation.
pub fn decode_walls(input: &U8WithKinds) -> (r: Result<Vec<(u8, Option<String>)>, AreaCodecError>)
    ensures
        match base64_decoding(input.entries@) {
            None => r matches Err(AreaCodecError::Base64(_)),
            Some(bytes) => match spec_walls_from_codes(input.kinds.deep_view(), bytes) {
                Some(out) => r matches Ok(v) && v.deep_view() == out,
                None => r matches Err(e) && walls_error_is(input.kinds.deep_view(), bytes, e),
            },
        },
{
    let bytes = match base64_decode(input.entries.as_str()) {
        Ok(b) => b,
        Err(e) => return Err(AreaCodecError::Base64(e)),
    };
    walls_from_codes(&input.kinds, &bytes)
}

/// Decoding the bytes of a non-empty run of walls in its own kinds table
/// gives the walls back, wherever there are at most 255 kinds.
pub proof fn lemma_wall_codes_roundtrip(walls: Seq<(u8, Option<Seq<char>>)>)
    requires
        walls.len() > 0,
        kinds_of(wall_kinds(walls)).len() <= 255,
    ensures
        spec_walls_from_codes(kinds_of(wall_kinds(walls)), wall_codes(kinds_of(wall_kinds(walls)), walls)) == Some(walls),
{
    let k = kinds_of(wall_kinds(walls));
    let codes = wall_codes(k, walls);
    lemma_kinds_of(wall_kinds(walls));
    assert forall|j: int| 0 <= j < codes.len() / 2 implies code_valid(k.len(), #[trigger] codes[2 * j])
        && kind_entry(k, codes[2 * j]) == walls[j].1 && codes[2 * j + 1] == walls[j].0 by {
        assert((2 * j) / 2 == j && (2 * j) % 2 == 0);
        assert((2 * j + 1) / 2 == j && (2 * j + 1) % 2 == 1);
        match walls[j].1 {
            None => {},
            Some(id) => {
                assert(wall_kinds(walls)[j] == Some(id));
                assert(k.contains(id));
                let c = k.index_of(id);
                assert(0 <= c < k.len() && k[c] == id);
            },
        }
    }
    assert(Seq::new(codes.len() / 2, |j: int| (codes[2 * j + 1], kind_entry(k, codes[2 * j]))) =~= walls);
}


/// The four bytes of a layer position: high and low byte of `p[0]`, then
/// high and low byte of `p[1]`.
pub open spec fn position_byte(p: Seq<u16>, k: int) -> u8 {
    if k == 0 {
        (p[0] / 256) as u8
    } else if k == 1 {
        (p[0] % 256) as u8
    } else if k == 2 {
        (p[1] / 256) as u8
    } else {
        (p[1] % 256) as u8
    }
}

/// Four bytes per position of a layer.
pub open spec fn layer_codes(positions: Seq<Seq<u16>>) -> Seq<u8> {
    Seq::new(4 * positions.len(), |i: int| position_byte(positions[i / 4], i % 4))
}

/// The positions that `bytes` encode: a non-empty run of four bytes each,
/// two big-endian coordinates.
pub open spec fn spec_layer_from_codes(bytes: Seq<u8>) -> Option<Seq<Seq<u16>>> {
    if bytes.len() > 0 && bytes.len() % 4 == 0 {
        Some(Seq::new(bytes.len() / 4, |j: int| seq![
            (bytes[4 * j] * 256 + bytes[4 * j + 1]) as u16,
            (bytes[4 * j + 2] * 256 + bytes[4 * j + 3]) as u16,
        ]))
    } else {
        None
    }
}

/// The positions of a layer that base64 `text` encodes.
pub open spec fn spec_layer_from_text(text: Seq<char>) -> Option<Seq<Seq<u16>>> {
    match base64_decoding(text) {
        None => None,
        Some(bytes) => spec_layer_from_codes(bytes),
    }
}

proof fn lemma_u16_bytes(x: u16)
    ensures
        (x >> 8u16) & 0xffu16 == x / 256,
        x & 0xffu16 == x % 256,
{
    assert((x >> 8u16) & 0xffu16 == x / 256) by (bit_vector);
    assert(x & 0xffu16 == x % 256) by (bit_vector);
}

/// Four bytes per position: the high and low bytes of its first two
/// coordinates.
pub fn encode_layer_positions(positions: &Vec<Vec<u16>>) -> (bytes: Vec<u8>)
    requires
        forall|i: int| 0 <= i < positions@.len() ==> (#[trigger] positions@[i])@.len() >= 2,
        4 * positions@.len() <= usize::MAX,
    ensures
        bytes@ == layer_codes(positions.deep_view()),
{
    let ghost ps = positions.deep_view();
    let mut out: Vec<u8> = Vec::new();
    let n = positions.len();
    let mut i: usize = 0;
    while i < n
        invariant
            n == positions@.len(),
            ps == positions.deep_view(),
            forall|j: int| 0 <= j < positions@.len() ==> (#[trigger] positions@[j])@.len() >= 2,
            4 * n <= usize::MAX,
            i <= n,
            out@ == layer_codes(ps.take(i as int)),
        decreases n - i,
    {
        let x = positions[i][0];
        let y = positions[i][1];
        proof {
            lemma_u16_bytes(x);
            lemma_u16_bytes(y);
        }
        out.push(((x >> 8) & 0xff) as u8);
        out.push((x & 0xff) as u8);
        out.push(((y >> 8) & 0xff) as u8);
        out.push((y & 0xff) as u8);
        proof {
            let t = ps.take(i + 1);
            assert(ps[i as int] == positions@[i as int]@);
            assert forall|j: int| 0 <= j < 4 * t.len() implies #[trigger] out@[j] == position_byte(t[j / 4], j % 4) by {
                if j < 4 * i {
                    assert(t[j / 4] == ps.take(i as int)[j / 4]);
                } else {
                    assert(j / 4 == i);
                }
            }
            assert(out@ =~= layer_codes(t));
        }
        i = i + 1;
    }
    proof {
        assert(ps.take(n as int) == ps);
    }
    out
}

/// The positions that `bytes` encode, four bytes each.
pub fn layer_positions_from_codes(bytes: &Vec<u8>) -> (r: Result<Vec<Vec<u16>>, AreaCodecError>)
    ensures
        match spec_layer_from_codes(bytes@) {
            Some(out) => r matches Ok(v) && v.deep_view() == out,
            None => r matches Err(AreaCodecError::InvalidLayerEncoding),
        },
{
    let mut out: Vec<Vec<u16>> = Vec::new();
    let n = bytes.len();
    let mut i: usize = 0;
    loop
        invariant_except_break
            i < n || i == 0,
        invariant
            n == bytes@.len(),
            i == 4 * out@.len(),
            i <= n,
            forall|j: int| 0 <= j < out@.len() ==> (#[trigger] out@[j])@ == seq![
                (bytes@[4 * j] * 256 + bytes@[4 * j + 1]) as u16,
                (bytes@[4 * j + 2] * 256 + bytes@[4 * j + 3]) as u16,
            ],
        ensures
            i == n,
            n > 0,
        decreases n - i,
    {
        if n - i < 4 {
            return Err(AreaCodecError::InvalidLayerEncoding);
        }
        let x: u16 = bytes[i] as u16 * 256 + bytes[i + 1] as u16;
        let y: u16 = bytes[i + 2] as u16 * 256 + bytes[i + 3] as u16;
        let mut p: Vec<u16> = Vec::new();
        p.push(x);
        p.push(y);
        proof {
            assert(p@ =~= seq![x, y]);
        }
        out.push(p);
        i = i + 4;
        if i == n {
            break;
        }
    }
    proof {
        assert(out@.len() == bytes@.len() / 4);
        assert forall|j: int| 0 <= j < out@.len() implies #[trigger] out.deep_view()[j] == out@[j]@ by {
            assert(out.deep_view()[j] =~= out@[j]@);
        }
        assert(out.deep_view() =~= Seq::new(bytes@.len() / 4, |j: int| seq![
            (bytes@[4 * j] * 256 + bytes@[4 * j + 1]) as u16,
            (bytes@[4 * j + 2] * 256 + bytes@[4 * j + 3]) as u16,
        ]));
    }
    Ok(out)
}

/// Decoding the bytes of a non-empty layer gives back the first two
/// coordinates of each position.
pub proof fn lemma_layer_codes_roundtrip(positions: Seq<Seq<u16>>)
    requires
        positions.len() > 0,
        forall|i: int| 0 <= i < positions.len() ==> (#[trigger] positions[i]).len() >= 2,
    ensures
        spec_layer_from_codes(layer_codes(positions)) == Some(Seq::new(positions.len(), |i: int| positions[i].take(2))),
{
    let codes = layer_codes(positions);
    assert forall|j: int| 0 <= j < positions.len() implies seq![
        (codes[4 * j] * 256 + codes[4 * j + 1]) as u16,
        (codes[4 * j + 2] * 256 + codes[4 * j + 3]) as u16,
    ] =~= (#[trigger] positions[j]).take(2) by {
        assert((4 * j) / 4 == j && (4 * j) % 4 == 0);
        assert((4 * j + 1) / 4 == j && (4 * j + 1) % 4 == 1);
        assert((4 * j + 2) / 4 == j && (4 * j + 2) % 4 == 2);
        assert((4 * j + 3) / 4 == j && (4 * j + 3) % 4 == 3);
        let x = positions[j][0];
        let y = positions[j][1];
        assert((x / 256) as u8 * 256 + (x % 256) as u8 == x);
        assert((y / 256) as u8 * 256 + (y % 256) as u8 == y);
    }
    assert(Seq::new(codes.len() / 4, |j: int| seq![
        (codes[4 * j] * 256 + codes[4 * j + 1]) as u16,
        (codes[4 * j + 2] * 256 + codes[4 * j + 3]) as u16,
    ]) =~= Seq::new(positions.len(), |i: int| positions[i].take(2)));
}

/// Writes each layer of an area as base64 text of four bytes per position.
pub fn encode_layer_set(layers: &Vec<(String, Vec<Vec<u16>>)>) -> (r: Vec<(String, String)>)
    requires
        forall|i: int, j: int| 0 <= i < layers@.len() && 0 <= j < layers@[i].1@.len()
            ==> (#[trigger] layers@[i].1@[j])@.len() >= 2,
        forall|i: int| 0 <= i < layers@.len() ==> 4 * (#[trigger] layers@[i]).1@.len() <= isize::MAX,
    ensures
        r@.len() == layers@.len(),
        forall|i: int| 0 <= i < layers@.len() ==> {
            &&& (#[trigger] r@[i]).0@ == layers@[i].0@
            &&& r@[i].1@ == base64_encoding(layer_codes(layers@[i].1.deep_view()))
            &&& spec_layer_from_text(r@[i].1@) == spec_layer_from_codes(layer_codes(layers@[i].1.deep_view()))
            &&& layers@[i].1@.len() > 0 ==> spec_layer_from_text(r@[i].1@)
                == Some(Seq::new(layers@[i].1@.len(), |j: int| layers@[i].1.deep_view()[j].take(2)))
        },
{
    let mut out: Vec<(String, String)> = Vec::new();
    let n = layers.len();
    let mut i: usize = 0;
    while i < n
        invariant
            n == layers@.len(),
            i <= n,
            out@.len() == i,
            forall|a: int, b: int| 0 <= a < layers@.len() && 0 <= b < layers@[a].1@.len()
                ==> (#[trigger] layers@[a].1@[b])@.len() >= 2,
            forall|a: int| 0 <= a < layers@.len() ==> 4 * (#[trigger] layers@[a]).1@.len() <= isize::MAX,
            forall|a: int| 0 <= a < i ==> {
                &&& (#[trigger] out@[a]).0@ == layers@[a].0@
                &&& out@[a].1@ == base64_encoding(layer_codes(layers@[a].1.deep_view()))
                &&& spec_layer_from_text(out@[a].1@) == spec_layer_from_codes(layer_codes(layers@[a].1.deep_view()))
                &&& layers@[a].1@.len() > 0 ==> spec_layer_from_text(out@[a].1@)
                    == Some(Seq::new(layers@[a].1@.len(), |j: int| layers@[a].1.deep_view()[j].take(2)))
            },
        decreases n - i,
    {
        let positions = &layers[i].1;
        proof {
            assert(4 * layers@[i as int].1@.len() <= isize::MAX);
            assert forall|j: int| 0 <= j < positions@.len() implies (#[trigger] positions@[j])@.len() >= 2 by {
                assert(layers@[i as int].1@[j]@.len() >= 2);
            }
        }
        let bytes = encode_layer_positions(positions);
        let text = base64_encode(bytes.as_slice());
        proof {
            let ps = positions.deep_view();
            if ps.len() > 0 {
                assert forall|j: int| 0 <= j < ps.len() implies (#[trigger] ps[j]).len() >= 2 by {
                    assert(ps[j] == positions@[j]@);
                }
                lemma_layer_codes_roundtrip(ps);
            }
        }
        out.push((layers[i].0.clone(), text));
        i = i + 1;
    }
    out
}

/// Reads each layer of an area from base64 text of four bytes per
/// position. Fails on the first layer that cannot be read.
pub fn decode_layer_set(encoded: &Vec<(String, String)>) -> (r: Result<Vec<(String, Vec<Vec<u16>>)>, AreaCodecError>)
    ensures
        r is Ok <==> forall|i: int| 0 <= i < encoded@.len() ==> (#[trigger] spec_layer_from_text(encoded@[i].1@)) is Some,
        r matches Ok(v) ==> {
            &&& v@.len() == encoded@.len()
            &&& forall|i: int| 0 <= i < encoded@.len() ==> {
                &&& (#[trigger] v@[i]).0@ == encoded@[i].0@
                &&& Some(v@[i].1.deep_view()) == spec_layer_from_text(encoded@[i].1@)
            }
        },
        r matches Err(e) ==> exists|i: int| {
            &&& 0 <= i < encoded@.len()
            &&& forall|j: int| 0 <= j < i ==> (#[trigger] spec_layer_from_text(encoded@[j].1@)) is Some
            &&& (#[trigger] spec_layer_from_text(encoded@[i].1@)) is None
            &&& if base64_decoding(encoded@[i].1@) is None {
                e is Base64
            } else {
                e is InvalidLayerEncoding
            }
        },
{
    let mut out: Vec<(String, Vec<Vec<u16>>)> = Vec::new();
    let n = encoded.len();
    let mut i: usize = 0;
    while i < n
        invariant
            n == encoded@.len(),
            i <= n,
            out@.len() == i,
            forall|a: int| 0 <= a < i ==> (#[trigger] spec_layer_from_text(encoded@[a].1@)) is Some,
            forall|a: int| 0 <= a < i ==> {
                &&& (#[trigger] out@[a]).0@ == encoded@[a].0@
                &&& Some(out@[a].1.deep_view()) == spec_layer_from_text(encoded@[a].1@)
            },
        decreases n - i,
    {
        let bytes = match base64_decode(encoded[i].1.as_str()) {
            Ok(b) => b,
            Err(e) => {
                proof {
                    assert(spec_layer_from_text(encoded@[i as int].1@) is None);
                }
                return Err(AreaCodecError::Base64(e));
            },
        };
        let positions = match layer_positions_from_codes(&bytes) {
            Ok(p) => p,
            Err(e) => {
                proof {
                    assert(spec_layer_from_text(encoded@[i as int].1@) is None);
                }
                return Err(e);
            },
        };
        out.push((encoded[i].0.clone(), positions));
        i = i + 1;
    }
    Ok(out)
}

/// The base64 text of an area's elevation bytes.
pub fn as_base64(input: &[u8]) -> (text: String)
    requires
        input@.len() <= isize::MAX,
    ensures
        text@ == base64_encoding(input@),
        base64_decoding(text@) == Some(input@),
{
    base64_encode(input)
}

/// The elevation bytes that base64 `text` encodes.
pub fn from_base64(text: &str) -> (r: Result<Vec<u8>, AreaCodecError>)
    ensures
        match base64_decoding(text@) {
            Some(bytes) => r matches Ok(v) && v@ == bytes,
            None => r matches Err(AreaCodecError::Base64(_)),
        },
{
    match base64_decode(text) {
        Ok(b) => Ok(b),
        Err(e) => Err(AreaCodecError::Base64(e)),
    }
}

} // verus!
