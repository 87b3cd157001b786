//! The decisions of the local database setup: which journal pragmas a mode
//! sets, and which schema steps bring a database to the latest revision.
use crate::codec::{base32_nopad_of, base64_decoded, decode_base64, encode_base32_nopad};
use vstd::prelude::*;
use vstd::string::*;

verus! {

/// The journal mode of the database.
#[derive(Debug, Clone, Copy, PartialEq, Eq, Structural)]
#[allow(non_camel_case_types, clippy::upper_case_acronyms)]
pub enum JournalMode {
    Rollback,
    WAL,
}

/// A block as a request names it: by number, by hash, the latest one, or the
/// pending one that is not yet part of the chain.
#[derive(Debug, Clone, Copy, PartialEq, Eq)]
pub enum RequestedBlock {
    Latest,
    Pending,
    Number(u64),
    Hash([u8; 32]),
}

/// A block stored in the database. Pending data is never stored, so there is
/// no pending block here.
#[derive(Debug, Clone, Copy, PartialEq, Eq)]
pub enum BlockId {
    Latest,
    Number(u64),
    Hash([u8; 32]),
}

impl BlockId {
    /// The block with number `number`.
    pub fn from_number(number: u64) -> (r: BlockId)
        ensures
            r == BlockId::Number(number),
    {
        BlockId::Number(number)
    }

    /// The block with hash `hash`.
    pub fn from_hash(hash: [u8; 32]) -> (r: BlockId)
        ensures
            r == BlockId::Hash(hash),
    {
        BlockId::Hash(hash)
    }

    /// The stored block that `value` names; the pending block is refused.
    pub fn try_from_requested(value: RequestedBlock) -> (r: Result<BlockId, &'static str>)
        ensures
            r is Err <==> value is Pending,
            value is Pending ==> r->Err_0@ == "Pending is invalid within the storage context"@,
            value is Latest ==> r == Ok::<BlockId, &'static str>(BlockId::Latest),
            value is Number ==> r == Ok::<BlockId, &'static str>(BlockId::Number(value->Number_0)),
            value is Hash ==> r == Ok::<BlockId, &'static str>(BlockId::Hash(value->Hash_0)),
    {
        proof {
            reveal_strlit("Pending is invalid within the storage context");
        }
        match value {
            RequestedBlock::Number(x) => Ok(BlockId::Number(x)),
            RequestedBlock::Hash(x) => Ok(BlockId::Hash(x)),
            RequestedBlock::Latest => Ok(BlockId::Latest),
            RequestedBlock::Pending => Err("Pending is invalid within the storage context"),
        }
    }
}

/// Upper bound, in bytes, on the write-ahead log kept on disk.
pub const JOURNAL_SIZE_LIMIT_BYTES: u64 = 1073741824;

/// One pragma that the journal setup sets.
#[derive(Debug, Clone, Copy, PartialEq, Eq, Structural)]
pub enum JournalPragma {
    /// `journal_mode = DELETE`
    JournalModeDelete,
    /// `journal_mode = WAL`
    JournalModeWal,
    /// `journal_size_limit = <bytes>`
    JournalSizeLimit { bytes: u64 },
    /// `synchronous = normal`
    SynchronousNormal,
}

/// The pragmas that `mode` sets, in the order in which they are set.
pub open spec fn pragmas_for(mode: JournalMode) -> Seq<JournalPragma> {
    match mode {
        JournalMode::Rollback => seq![JournalPragma::JournalModeDelete],
        JournalMode::WAL => seq![
            JournalPragma::JournalModeWal,
            JournalPragma::JournalSizeLimit { bytes: JOURNAL_SIZE_LIMIT_BYTES },
            JournalPragma::SynchronousNormal,
        ],
    }
}

/// Lists the pragmas that set up journal mode `mode`.
pub fn journal_pragmas(mode: JournalMode) -> (r: Vec<JournalPragma>)
    ensures
        r@ == pragmas_for(mode),
{
    match mode {
        JournalMode::Rollback => vec![JournalPragma::JournalModeDelete],
        JournalMode::WAL => vec![
            JournalPragma::JournalModeWal,
            JournalPragma::JournalSizeLimit { bytes: JOURNAL_SIZE_LIMIT_BYTES },
            JournalPragma::SynchronousNormal,
        ],
    }
}

/// The name under which SQLite knows the pragma.
pub open spec fn pragma_name(p: JournalPragma) -> Seq<char> {
    match p {
        JournalPragma::JournalModeDelete | JournalPragma::JournalModeWal => seq![
            'j', 'o', 'u', 'r', 'n', 'a', 'l', '_', 'm', 'o', 'd', 'e',
        ],
        JournalPragma::JournalSizeLimit { .. } => seq![
            'j', 'o', 'u', 'r', 'n', 'a', 'l', '_', 's', 'i', 'z', 'e', '_', 'l', 'i', 'm', 'i', 't',
        ],
        JournalPragma::SynchronousNormal => seq!['s', 'y', 'n', 'c', 'h', 'r', 'o', 'n', 'o', 'u', 's'],
    }
}

impl JournalPragma {
    /// The pragma's name.
    pub fn name(&self) -> (r: &'static str)
        ensures
            r@ == pragma_name(*self),
    {
        proof {
            reveal_strlit("journal_mode");
            reveal_strlit("journal_size_limit");
            reveal_strlit("synchronous");
        }
        match self {
            JournalPragma::JournalModeDelete => "journal_mode",
            JournalPragma::JournalModeWal => "journal_mode",
            JournalPragma::JournalSizeLimit { .. } => "journal_size_limit",
            JournalPragma::SynchronousNormal => "synchronous",
        }
    }
}

/// Names the database file; connections are made to it after migration.
pub struct StorageManager {
    database_path: String,
}

impl StorageManager {
    /// A manager for the database at `database_path`.
    pub fn new(database_path: String) -> (r: StorageManager)
        ensures
            r.path_view() == database_path@,
    {
        StorageManager { database_path }
    }

    pub closed spec fn path_view(&self) -> Seq<char> {
        self.database_path@
    }

    /// The path of the database file.
    pub fn path(&self) -> (r: &str)
        ensures
            r@ == self.path_view(),
    {
        self.database_path.as_str()
    }
}

/// Why a database cannot be migrated.
#[derive(Debug, Clone, Copy, PartialEq, Eq, Structural)]
pub enum MigrationError {
    /// The database predates the base schema and cannot be migrated.
    TooOld { version: usize },
    /// The database was written by a newer revision than this one knows.
    TooNew { version: usize, latest: usize },
}

/// The steps that bring a database to the latest revision.
#[derive(Debug, Clone, Copy, PartialEq, Eq, Structural)]
pub struct MigrationPlan {
    /// Whether the base schema is applied first (on a new database).
    pub apply_base: bool,
    /// Index of the first migration to apply; the migrations from it to the
    /// end of the list are applied in order.
    pub first_migration: usize,
    /// The revision that the database has once the plan is carried out.
    pub target: usize,
}

/// The plan, or the error, for a database at revision `current` where the
/// base schema stands for revision `base` and `n` migrations follow it.
/// Revision zero is a new database.
pub open spec fn plan_for(current: nat, base: nat, n: nat) -> Result<MigrationPlan, MigrationError> {
    let start = if current == 0 { base } else { current };
    if start < base {
        Err(MigrationError::TooOld { version: start as usize })
    } else if start > base + n {
        Err(MigrationError::TooNew { version: start as usize, latest: (base + n) as usize })
    } else {
        Ok(
            MigrationPlan {
                apply_base: current == 0,
                first_migration: (start - base) as usize,
                target: (base + n) as usize,
            },
        )
    }
}

/// Decides how a database at revision `current` is migrated, where the base
/// schema stands for revision `base` and `n_migrations` migrations follow it.
pub fn migration_plan(current: usize, base: usize, n_migrations: usize) -> (r: Result<
    MigrationPlan,
    MigrationError,
>)
    requires
        base + n_migrations <= usize::MAX,
    ensures
        r == plan_for(current as nat, base as nat, n_migrations as nat),
{
    let start: usize = if current == 0 { base } else { current };
    let latest: usize = base + n_migrations;
    if start == latest {
        Ok(MigrationPlan { apply_base: current == 0, first_migration: n_migrations, target: latest })
    } else if start < base {
        Err(MigrationError::TooOld { version: start })
    } else if start > latest {
        Err(MigrationError::TooNew { version: start, latest })
    } else {
        Ok(MigrationPlan { apply_base: current == 0, first_migration: start - base, target: latest })
    }
}

/// The revision that the database has after the migration at `index` has
/// been applied.
pub open spec fn revision_after(base: nat, index: nat) -> nat {
    base + index + 1
}

/// Carrying out a plan ends at the latest revision: the base schema (where
/// applied) and the migrations from `first_migration` on bring the database,
/// one revision at a time, to `base + n`.
pub proof fn lemma_plan_reaches_latest(current: nat, base: nat, n: nat)
    requires
        plan_for(current, base, n) is Ok,
        base + n <= usize::MAX,
    ensures
        ({
            let p = plan_for(current, base, n)->Ok_0;
            &&& p.target == base + n
            &&& p.first_migration <= n
            &&& (p.first_migration < n ==> revision_after(base, (n - 1) as nat) == p.target)
            &&& (current == 0 <==> p.apply_base)
            &&& (current != 0 ==> current == base + p.first_migration)
            &&& (current == 0 ==> p.first_migration == 0)
        }),
{
}

/// How many keys of an event filter are converted: the index of each must
/// fit in the one prefix byte.
pub const EVENT_KEY_FILTER_LIMIT: usize = 256;

/// `s` cut at each space, as `str::split(' ')` cuts it: `n` spaces give
/// `n + 1` pieces, some of which may be empty.
pub open spec fn split_spaces(s: Seq<u8>) -> Seq<Seq<u8>>
    decreases s.len(),
{
    if s.len() == 0 {
        seq![Seq::<u8>::empty()]
    } else {
        let init = split_spaces(s.drop_last());
        if s.last() == 32u8 {
            init.push(Seq::<u8>::empty())
        } else {
            init.update(init.len() - 1, init.last().push(s.last()))
        }
    }
}

/// `parts` joined with one space between each two.
pub open spec fn join_spaces(parts: Seq<Seq<char>>) -> Seq<char>
    decreases parts.len(),
{
    if parts.len() == 0 {
        Seq::<char>::empty()
    } else if parts.len() == 1 {
        parts[0]
    } else {
        join_spaces(parts.drop_last()) + seq![' '] + parts.last()
    }
}

/// How many of the pieces are converted.
pub open spec fn converted_count(pieces: Seq<Seq<u8>>) -> nat {
    if pieces.len() < EVENT_KEY_FILTER_LIMIT {
        pieces.len()
    } else {
        EVENT_KEY_FILTER_LIMIT as nat
    }
}

/// The 33-byte buffer of the felt at `index` with decoded bytes `d`: the
/// index, then `d`, then zeros.
pub open spec fn felt_buffer(index: nat, d: Seq<u8>) -> Seq<u8> {
    seq![index as u8] + d + Seq::new((32 - d.len()) as nat, |i: int| 0u8)
}

/// Each converted piece is valid base64 of at most 32 bytes.
pub open spec fn felts_decodable(s: Seq<u8>) -> bool {
    let pieces = split_spaces(s);
    forall|j: int|
        0 <= j < converted_count(pieces) ==> #[trigger] base64_decoded(pieces[j]) is Some
            && base64_decoded(pieces[j])->Some_0.len() <= 32
}

/// The conversion of the piece at `index`.
pub open spec fn converted_felt(piece: Seq<u8>, index: nat) -> Seq<char> {
    base32_nopad_of(felt_buffer(index, base64_decoded(piece)->Some_0))
}

/// The space-separated base64 felts of `s`, the first 256 of them, each
/// prefixed by its index and encoded in base32, joined by spaces.
pub open spec fn felts_converted(s: Seq<u8>) -> Seq<char> {
    let pieces = split_spaces(s);
    join_spaces(Seq::new(converted_count(pieces), |j: int| converted_felt(pieces[j], j as nat)))
}

proof fn lemma_split_nonempty(s: Seq<u8>)
    ensures
        split_spaces(s).len() >= 1,
    decreases s.len(),
{
    if s.len() > 0 {
        lemma_split_nonempty(s.drop_last());
    }
}

/// Cuts `s` at each space.
fn split_at_spaces(s: &[u8]) -> (r: Vec<Vec<u8>>)
    ensures
        r@.len() == split_spaces(s@).len(),
        forall|j: int| 0 <= j < r@.len() ==> #[trigger] r@[j]@ == split_spaces(s@)[j],
{
    let mut done: Vec<Vec<u8>> = Vec::new();
    let mut cur: Vec<u8> = Vec::new();
    let mut i: usize = 0;
    while i < s.len()
        invariant
            i <= s@.len(),
            done@.len() + 1 == split_spaces(s@.take(i as int)).len(),
            forall|j: int| 0 <= j < done@.len() ==> #[trigger] done@[j]@ == split_spaces(s@.take(i as int))[j],
            cur@ == split_spaces(s@.take(i as int)).last(),
        decreases s@.len() - i,
    {
        let b = s[i];
        proof {
            assert(s@.take(i + 1).drop_last() =~= s@.take(i as int));
            assert(s@.take(i + 1).last() == b);
            lemma_split_nonempty(s@.take(i as int));
        }
        if b == 32u8 {
            done.push(cur);
            cur = Vec::new();
        } else {
            cur.push(b);
        }
        i = i + 1;
    }
    proof {
        assert(s@.take(s@.len() as int) =~= s@);
    }
    done.push(cur);
    done
}

/// Joins `parts` with one space between each two.
fn join_with_spaces(parts: &Vec<String>) -> (r: String)
    ensures
        r@ == join_spaces(Seq::new(parts@.len(), |j: int| parts@[j]@)),
{
    let mut r = String::new();
    let mut k: usize = 0;
    while k < parts.len()
        invariant
            k <= parts@.len(),
            r@ == join_spaces(Seq::new(k as nat, |j: int| parts@[j]@)),
        decreases parts@.len() - k,
    {
        proof {
            reveal_strlit(" ");
            let next = Seq::new((k + 1) as nat, |j: int| parts@[j]@);
            assert(next.drop_last() =~= Seq::new(k as nat, |j: int| parts@[j]@));
        }
        if k > 0 {
            r.append(" ");
        }
        r.append(parts[k].as_str());
        k = k + 1;
    }
    proof {
        assert(Seq::new(k as nat, |j: int| parts@[j]@) =~= Seq::new(parts@.len(), |j: int| parts@[j]@));
    }
    r
}

/// Converts the space-separated base64 felts of `base64_felts`, or returns
/// `None` where one of the first 256 is no base64 of at most 32 bytes.
pub fn try_base64_felts_to_index_prefixed_base32_felts(base64_felts: &str) -> (r: Option<String>)
    ensures
        r is Some <==> felts_decodable(base64_felts.spec_bytes()),
        r is Some ==> r->Some_0@ == felts_converted(base64_felts.spec_bytes()),
{
    let bytes = base64_felts.as_bytes();
    let pieces = split_at_spaces(bytes);
    let ghost sp = split_spaces(bytes@);
    let count: usize = if pieces.len() < EVENT_KEY_FILTER_LIMIT {
        pieces.len()
    } else {
        EVENT_KEY_FILTER_LIMIT
    };
    let mut out: Vec<String> = Vec::new();
    let mut k: usize = 0;
    while k < count
        invariant
            count == converted_count(sp),
            count <= EVENT_KEY_FILTER_LIMIT,
            bytes@ == base64_felts.spec_bytes(),
            pieces@.len() == sp.len(),
            forall|j: int| 0 <= j < pieces@.len() ==> #[trigger] pieces@[j]@ == sp[j],
            sp == split_spaces(bytes@),
            k <= count,
            out@.len() == k,
            forall|j: int| 0 <= j < k ==> #[trigger] base64_decoded(sp[j]) is Some
                && base64_decoded(sp[j])->Some_0.len() <= 32,
            forall|j: int| 0 <= j < k ==> #[trigger] out@[j]@ == converted_felt(sp[j], j as nat),
        decreases count - k,
    {
        let decoded = decode_base64(pieces[k].as_slice());
        match decoded {
            None => {
                assert(!(base64_decoded(sp[k as int]) is Some));
                assert(!felts_decodable(bytes@));
                return None;
            },
            Some(d) => {
                if d.len() > 32 {
                    assert(!(base64_decoded(sp[k as int])->Some_0.len() <= 32));
                    assert(!felts_decodable(bytes@));
                    return None;
                }
                let mut buf: Vec<u8> = Vec::new();
                buf.push(k as u8);
                let mut t: usize = 0;
                while t < d.len()
                    invariant
                        t <= d@.len(),
                        buf@ == seq![k as u8] + d@.take(t as int),
                    decreases d@.len() - t,
                {
                    buf.push(d[t]);
                    proof {
                        assert(d@.take(t + 1) =~= d@.take(t as int).push(d@[t as int]));
                    }
                    t = t + 1;
                }
                let mut z: usize = d.len();
                while z < 32
                    invariant
                        d@.len() <= z <= 32,
                        buf@ == seq![k as u8] + d@ + Seq::new((z - d@.len()) as nat, |i: int| 0u8),
                    decreases 32 - z,
                {
                    buf.push(0u8);
                    proof {
                        assert(Seq::new((z + 1 - d@.len()) as nat, |i: int| 0u8) =~= Seq::new(
                            (z - d@.len()) as nat,
                            |i: int| 0u8,
                        ).push(0u8));
                    }
                    z = z + 1;
                }
                proof {
                    assert(d@.take(d@.len() as int) =~= d@);
                    assert(buf@ =~= felt_buffer(k as nat, d@));
                }
                let encoded = encode_base32_nopad(buf.as_slice());
                out.push(encoded);
            },
        }
        k = k + 1;
    }
    let r = join_with_spaces(&out);
    proof {
        assert(Seq::new(out@.len(), |j: int| out@[j]@) =~= Seq::new(
            converted_count(sp),
            |j: int| converted_felt(sp[j], j as nat),
        ));
    }
    Some(r)
}

/// Converts the space-separated base64 felts of `base64_felts`: each of the
/// first 256 is decoded into a 32-byte buffer (its bytes first, then zeros),
/// prefixed by its index as one byte, and encoded in unpadded base32; the
/// results are joined by spaces.
pub fn base64_felts_to_index_prefixed_base32_felts(base64_felts: &str) -> (r: String)
    requires
        felts_decodable(base64_felts.spec_bytes()),
    ensures
        r@ == felts_converted(base64_felts.spec_bytes()),
{
    match try_base64_felts_to_index_prefixed_base32_felts(base64_felts) {
        Some(r) => r,
        None => String::new(),
    }
}

} // verus!
