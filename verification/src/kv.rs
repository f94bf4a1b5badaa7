//! The local store: an LMDB database of byte-string keys and values, read
//! and written in transactions.
//!
//! A transaction (`Batch`) is modelled by the map it holds. LMDB keeps its
//! keys in byte-lexicographic order (its default comparison compares the
//! bytes the keys share, then puts the shorter key first), and the records of
//! one table are found by walking the keys that start with the table's
//! prefix in that order.

use crate::db::{StoreOp, StoreOpModel, opt_bytes};
use crate::error::{Error, ErrorKind};
use crate::ser::views;
use lmdb_zero::LmdbResultExt;
use std::sync::Arc;
use vstd::prelude::*;

verus! {

broadcast use vstd::seq_lib::group_seq_properties;

/// Byte-lexicographic order, the order LMDB keeps its keys in: the first
/// byte where the strings differ decides, and a string comes before every
/// longer string that starts with it.
pub open spec fn lex_le(a: Seq<u8>, b: Seq<u8>) -> bool
    decreases a.len(),
{
    if a.len() == 0 {
        true
    } else if b.len() == 0 {
        false
    } else if a[0] != b[0] {
        a[0] < b[0]
    } else {
        lex_le(a.drop_first(), b.drop_first())
    }
}

/// `a` comes strictly before `b`.
pub open spec fn lex_lt(a: Seq<u8>, b: Seq<u8>) -> bool {
    lex_le(a, b) && a != b
}

/// `k` starts with `p`.
pub open spec fn has_prefix(k: Seq<u8>, p: Seq<u8>) -> bool {
    p.len() <= k.len() && k.take(p.len() as int) == p
}

/// What `m` holds under `k`, if anything.
pub open spec fn lookup(m: Map<Seq<u8>, Seq<u8>>, k: Seq<u8>) -> Option<Seq<u8>> {
    if m.contains_key(k) {
        Some(m[k])
    } else {
        None
    }
}

/// `es` lists the entries of `m` whose keys start with `p`, each once, in
/// key order.
pub open spec fn is_listing(m: Map<Seq<u8>, Seq<u8>>, p: Seq<u8>, es: Seq<(Seq<u8>, Seq<u8>)>) -> bool {
    &&& forall|i: int|
        0 <= i < es.len() ==> m.contains_key(#[trigger] es[i].0) && m[es[i].0] == es[i].1 && has_prefix(es[i].0, p)
    &&& forall|i: int, j: int| 0 <= i < j < es.len() ==> lex_lt(#[trigger] es[i].0, #[trigger] es[j].0)
    &&& forall|k: Seq<u8>| #[trigger] m.contains_key(k) && has_prefix(k, p) ==> exists|i: int| 0 <= i < es.len() && es[i].0 == k
}

/// The entries of `m` whose keys start with `p`, in key order.
pub open spec fn listing(m: Map<Seq<u8>, Seq<u8>>, p: Seq<u8>) -> Seq<(Seq<u8>, Seq<u8>)> {
    choose|es: Seq<(Seq<u8>, Seq<u8>)>| is_listing(m, p, es)
}

pub proof fn lemma_lex_refl(a: Seq<u8>)
    ensures
        lex_le(a, a),
    decreases a.len(),
{
    if a.len() > 0 {
        lemma_lex_refl(a.drop_first());
    }
}

pub proof fn lemma_lex_antisym(a: Seq<u8>, b: Seq<u8>)
    requires
        lex_le(a, b),
        lex_le(b, a),
    ensures
        a == b,
    decreases a.len(),
{
    if a.len() > 0 {
        lemma_lex_antisym(a.drop_first(), b.drop_first());
        assert(a =~= seq![a[0]] + a.drop_first());
        assert(b =~= seq![b[0]] + b.drop_first());
    } else {
        assert(b.len() == 0);
        assert(a =~= b);
    }
}

pub proof fn lemma_lex_trans(a: Seq<u8>, b: Seq<u8>, c: Seq<u8>)
    requires
        lex_le(a, b),
        lex_le(b, c),
    ensures
        lex_le(a, c),
    decreases a.len(),
{
    if a.len() > 0 && b.len() > 0 && c.len() > 0 && a[0] == b[0] && b[0] == c[0] {
        lemma_lex_trans(a.drop_first(), b.drop_first(), c.drop_first());
    }
}

pub proof fn lemma_lex_total(a: Seq<u8>, b: Seq<u8>)
    ensures
        lex_le(a, b) || lex_le(b, a),
    decreases a.len(),
{
    if a.len() > 0 && b.len() > 0 && a[0] == b[0] {
        lemma_lex_total(a.drop_first(), b.drop_first());
    }
}

/// A key comes no earlier than its prefix.
pub proof fn lemma_prefix_le(p: Seq<u8>, k: Seq<u8>)
    requires
        has_prefix(k, p),
    ensures
        lex_le(p, k),
    decreases p.len(),
{
    if p.len() > 0 {
        assert(k[0] == k.take(p.len() as int)[0]);
        assert(k.drop_first().take(p.drop_first().len() as int) =~= k.take(p.len() as int).drop_first());
        lemma_prefix_le(p.drop_first(), k.drop_first());
    }
}

/// A key that comes no earlier than `p` but does not start with it comes
/// after every key that starts with `p`.
pub proof fn lemma_prefix_block(p: Seq<u8>, k: Seq<u8>, j: Seq<u8>)
    requires
        lex_le(p, k),
        !has_prefix(k, p),
        has_prefix(j, p),
    ensures
        lex_lt(j, k),
    decreases p.len(),
{
    assert(p.len() > 0) by {
        if p.len() == 0 {
            assert(k.take(0) =~= p);
        }
    }
    assert(j[0] == j.take(p.len() as int)[0]);
    assert(j.drop_first().take(p.drop_first().len() as int) =~= j.take(p.len() as int).drop_first());
    if k.len() == 0 {
    } else if k[0] != p[0] {
        assert(k[0] > p[0]);
    } else {
        assert(k.len() >= 1);
        if has_prefix(k.drop_first(), p.drop_first()) {
            assert(p.drop_first().len() <= k.drop_first().len());
            assert(k.take(p.len() as int) =~= seq![k[0]] + k.drop_first().take(p.drop_first().len() as int));
            assert(p =~= seq![p[0]] + p.drop_first());
        }
        lemma_prefix_block(p.drop_first(), k.drop_first(), j.drop_first());
        assert(j.drop_first() != k.drop_first() ==> j != k);
        if j == k {
            assert(j.drop_first() == k.drop_first());
        }
    }
}

/// The keys after `k` are those no earlier than `k` followed by a zero byte.
pub proof fn lemma_successor(k: Seq<u8>, j: Seq<u8>)
    ensures
        lex_le(k.push(0u8), j) <==> lex_lt(k, j),
    decreases k.len(),
{
    let s = k.push(0u8);
    assert(s.len() > 0);
    if k.len() == 0 {
        assert(s =~= seq![0u8]);
        if j.len() > 0 {
            assert(j != k);
            if j[0] == 0 {
                assert(s.drop_first() =~= Seq::<u8>::empty());
                assert(lex_le(s.drop_first(), j.drop_first()));
            }
        } else {
            assert(j =~= k);
        }
    } else if j.len() == 0 {
        assert(!lex_le(s, j));
        assert(!lex_le(k, j));
    } else if k[0] != j[0] {
        assert(s[0] == k[0]);
        assert(k != j);
    } else {
        assert(s[0] == k[0]);
        assert(s.drop_first() =~= k.drop_first().push(0u8));
        lemma_successor(k.drop_first(), j.drop_first());
        assert(k =~= seq![k[0]] + k.drop_first());
        assert(j =~= seq![j[0]] + j.drop_first());
        if k.drop_first() == j.drop_first() {
            assert(k == j);
        }
        if k == j {
            assert(k.drop_first() == j.drop_first());
        }
    }
}

/// There is one listing of the entries that start with a prefix.
pub proof fn lemma_listing_unique(
    m: Map<Seq<u8>, Seq<u8>>,
    p: Seq<u8>,
    a: Seq<(Seq<u8>, Seq<u8>)>,
    b: Seq<(Seq<u8>, Seq<u8>)>,
)
    requires
        is_listing(m, p, a),
        is_listing(m, p, b),
    ensures
        a == b,
    decreases a.len() + b.len(),
{
    if a.len() == 0 && b.len() == 0 {
        assert(a =~= b);
    } else if a.len() == 0 {
        assert(m.contains_key(b[0].0) && has_prefix(b[0].0, p));
    } else if b.len() == 0 {
        assert(m.contains_key(a[0].0) && has_prefix(a[0].0, p));
    } else {
        // both start with the least key
        assert(m.contains_key(a[0].0) && has_prefix(a[0].0, p));
        assert(m.contains_key(b[0].0) && has_prefix(b[0].0, p));
        let ib = choose|i: int| 0 <= i < b.len() && b[i].0 == a[0].0;
        let ia = choose|i: int| 0 <= i < a.len() && a[i].0 == b[0].0;
        if ib > 0 {
            assert(lex_lt(b[0].0, b[ib].0));
            if ia > 0 {
                assert(lex_lt(a[0].0, a[ia].0));
                lemma_lex_antisym(a[0].0, b[0].0);
            }
        }
        assert(a[0].0 == b[0].0) by {
            if a[0].0 != b[0].0 {
                if ib > 0 && ia > 0 {
                    lemma_lex_antisym(a[0].0, b[0].0);
                }
            }
        }
        let ra = a.drop_first();
        let rb = b.drop_first();
        let m2 = m.remove(a[0].0);
        assert(is_listing(m2, p, ra)) by {
            assert forall|i: int, j: int| 0 <= i < j < ra.len() implies lex_lt(#[trigger] ra[i].0, #[trigger] ra[j].0) by {
                assert(ra[i] == a[i + 1] && ra[j] == a[j + 1]);
            }
            assert forall|i: int| 0 <= i < ra.len() implies m2.contains_key(#[trigger] ra[i].0) && m2[ra[i].0]
                == ra[i].1 && has_prefix(ra[i].0, p) by {
                assert(ra[i] == a[i + 1]);
                assert(lex_lt(a[0].0, a[i + 1].0));
            }
            assert forall|k: Seq<u8>| #[trigger] m2.contains_key(k) && has_prefix(k, p) implies exists|i: int|
                0 <= i < ra.len() && ra[i].0 == k by {
                let i = choose|i: int| 0 <= i < a.len() && a[i].0 == k;
                assert(i > 0);
                assert(ra[i - 1].0 == k);
            }
        }
        assert(is_listing(m2, p, rb)) by {
            assert forall|i: int, j: int| 0 <= i < j < rb.len() implies lex_lt(#[trigger] rb[i].0, #[trigger] rb[j].0) by {
                assert(rb[i] == b[i + 1] && rb[j] == b[j + 1]);
            }
            assert forall|i: int| 0 <= i < rb.len() implies m2.contains_key(#[trigger] rb[i].0) && m2[rb[i].0]
                == rb[i].1 && has_prefix(rb[i].0, p) by {
                assert(rb[i] == b[i + 1]);
                assert(lex_lt(b[0].0, b[i + 1].0));
            }
            assert forall|k: Seq<u8>| #[trigger] m2.contains_key(k) && has_prefix(k, p) implies exists|i: int|
                0 <= i < rb.len() && rb[i].0 == k by {
                let i = choose|i: int| 0 <= i < b.len() && b[i].0 == k;
                assert(i > 0);
                assert(rb[i - 1].0 == k);
            }
        }
        lemma_listing_unique(m2, p, ra, rb);
        assert(a[0].1 == m[a[0].0] && b[0].1 == m[b[0].0]);
        assert(a =~= seq![a[0]] + ra);
        assert(b =~= seq![b[0]] + rb);
    }
}

/// An LMDB environment, opened on the files of a database.
#[verifier::external_type_specification]
#[verifier::external_body]
pub struct ExEnvironment(lmdb_zero::Environment);

/// A database in an LMDB environment.
#[verifier::external_type_specification]
#[verifier::external_body]
pub struct ExDatabase<'a>(lmdb_zero::Database<'a>);

/// A write transaction on an LMDB environment.
#[verifier::external_type_specification]
#[verifier::external_body]
pub struct ExWriteTransaction<'a>(lmdb_zero::WriteTransaction<'a>);

/// The database that holds the records, in an open environment.
pub struct Store {
    env: Arc<lmdb_zero::Environment>,
    db: Arc<lmdb_zero::Database<'static>>,
}

/// A write transaction on the store: what it reads includes what it wrote
/// before; nothing is kept unless it is committed.
pub struct Batch {
    txn: lmdb_zero::WriteTransaction<'static>,
    db: Arc<lmdb_zero::Database<'static>>,
}

/// The records that a transaction sees, by key.
pub uninterp spec fn batch_contents(b: Batch) -> Map<Seq<u8>, Seq<u8>>;

/// A write transaction that committed left the database holding exactly
/// the records `records`.
pub uninterp spec fn committed(records: Map<Seq<u8>, Seq<u8>>) -> bool;

/// The error reported for a failure of LMDB.
pub open spec fn is_lmdb_error(e: Error) -> bool {
    e.inner is LMDBError
}

impl Store {
    /// Opens the database named `concord` in the environment, creating it
    /// if it is not there.
    ///
    /// Calls `lmdb_zero::Database::open` with the `CREATE` flag. Nothing is
    /// stated of the records: they are what is on disk.
    #[verifier::external_body]
    pub(crate) fn open(env: Arc<lmdb_zero::Environment>) -> (res: Result<Store, Error>)
        ensures
            res matches Err(e) ==> is_lmdb_error(e),
    {
        let options = lmdb_zero::DatabaseOptions::new(lmdb_zero::db::CREATE);
        match lmdb_zero::Database::open(env.clone(), Some("concord"), &options) {
            Ok(db) => Ok(Store { env, db: Arc::new(db) }),
            Err(e) => Err(Error { inner: ErrorKind::LMDBError(format!("{}", e)) }),
        }
    }

    /// Begins a write transaction.
    ///
    /// Calls `lmdb_zero::WriteTransaction::new`. LMDB runs one write
    /// transaction at a time, and a new one sees the database as the last
    /// committed write transaction left it (opening the database with
    /// `CREATE` commits its first, empty, state), so the records it sees are
    /// `committed` ones; there are finitely many. Which commit that was is
    /// not stated: other writers may share the files.
    #[verifier::external_body]
    pub(crate) fn batch(&self) -> (res: Result<Batch, Error>)
        ensures
            res matches Ok(b) ==> batch_contents(b).dom().finite(),
            res matches Ok(b) ==> committed(batch_contents(b)),
            res matches Err(e) ==> is_lmdb_error(e),
    {
        match lmdb_zero::WriteTransaction::new(self.env.clone()) {
            Ok(txn) => Ok(Batch { txn, db: self.db.clone() }),
            Err(e) => Err(Error { inner: ErrorKind::LMDBError(format!("{}", e)) }),
        }
    }
}

impl Batch {
    /// The value stored under `key`, if any.
    ///
    /// Calls `ConstAccessor::get`; LMDB's "not found" gives nothing, and
    /// the value found is copied out.
    #[verifier::external_body]
    pub(crate) fn get(&self, key: &[u8]) -> (res: Result<Option<Vec<u8>>, Error>)
        ensures
            res matches Ok(v) ==> opt_bytes(v) == lookup(batch_contents(*self), key@),
            res matches Err(e) ==> is_lmdb_error(e),
    {
        let access = self.txn.access();
        match access.get::<[u8], [u8]>(&self.db, key).to_opt() {
            Ok(v) => Ok(v.map(|b| b.to_vec())),
            Err(e) => Err(Error { inner: ErrorKind::LMDBError(format!("{}", e)) }),
        }
    }

    /// Stores `value` under `key`, replacing what was there.
    ///
    /// Calls `WriteAccessor::put` with no flags on a database that keeps
    /// one value per key.
    #[verifier::external_body]
    pub(crate) fn put(&mut self, key: &[u8], value: &[u8]) -> (res: Result<(), Error>)
        ensures
            res is Ok ==> batch_contents(*final(self)) == batch_contents(*old(self)).insert(key@, value@),
            res matches Err(e) ==> is_lmdb_error(e),
    {
        let mut access = self.txn.access();
        match access.put(&self.db, key, value, lmdb_zero::put::Flags::empty()) {
            Ok(()) => Ok(()),
            Err(e) => Err(Error { inner: ErrorKind::LMDBError(format!("{}", e)) }),
        }
    }

    /// Removes what is stored under `key`; nothing happens when nothing is.
    ///
    /// Calls `WriteAccessor::del_key`, whose "not found" is no failure.
    #[verifier::external_body]
    pub(crate) fn delete(&mut self, key: &[u8]) -> (res: Result<(), Error>)
        ensures
            res is Ok ==> batch_contents(*final(self)) == batch_contents(*old(self)).remove(key@),
            res matches Err(e) ==> is_lmdb_error(e),
    {
        let mut access = self.txn.access();
        match access.del_key(&self.db, key).to_opt() {
            Ok(_) => Ok(()),
            Err(e) => Err(Error { inner: ErrorKind::LMDBError(format!("{}", e)) }),
        }
    }

    /// The first entry whose key is no earlier than `key`, if any.
    ///
    /// Opens a cursor and calls `Cursor::seek_range_k` (`MDB_SET_RANGE`),
    /// which finds the least key that is not less than `key` in LMDB's key
    /// order; the entry is copied out.
    #[verifier::external_body]
    pub(crate) fn seek(&self, key: &[u8]) -> (res: Result<Option<(Vec<u8>, Vec<u8>)>, Error>)
        ensures
            match res {
                Ok(Some((k, v))) => {
                    &&& batch_contents(*self).contains_key(k@)
                    &&& batch_contents(*self)[k@] == v@
                    &&& lex_le(key@, k@)
                    &&& forall|j: Seq<u8>| #[trigger] batch_contents(*self).contains_key(j) && lex_le(key@, j) ==> lex_le(k@, j)
                },
                Ok(None) => forall|j: Seq<u8>| #[trigger] batch_contents(*self).contains_key(j) ==> !lex_le(key@, j),
                Err(e) => is_lmdb_error(e),
            },
    {
        let access = self.txn.access();
        let mut cursor = match self.txn.cursor(self.db.clone()) {
            Ok(c) => c,
            Err(e) => return Err(Error { inner: ErrorKind::LMDBError(format!("{}", e)) }),
        };
        match cursor.seek_range_k::<[u8], [u8]>(&access, key).to_opt() {
            Ok(found) => Ok(found.map(|(k, v)| (k.to_vec(), v.to_vec()))),
            Err(e) => Err(Error { inner: ErrorKind::LMDBError(format!("{}", e)) }),
        }
    }

    /// Makes the changes of the transaction durable.
    ///
    /// Calls `WriteTransaction::commit`. LMDB lets one write transaction
    /// run at a time, so a commit that succeeds leaves the database holding
    /// exactly the records the transaction held; the contract says so with
    /// `committed`.
    #[verifier::external_body]
    pub(crate) fn commit(self) -> (res: Result<(), Error>)
        ensures
            res is Ok ==> committed(batch_contents(self)),
            res matches Err(e) ==> is_lmdb_error(e),
    {
        match self.txn.commit() {
            Ok(()) => Ok(()),
            Err(e) => Err(Error { inner: ErrorKind::LMDBError(format!("{}", e)) }),
        }
    }
}

/// The map after the changes `ops`, in order.
pub open spec fn apply_ops(m: Map<Seq<u8>, Seq<u8>>, ops: Seq<StoreOpModel>) -> Map<Seq<u8>, Seq<u8>>
    decreases ops.len(),
{
    if ops.len() == 0 {
        m
    } else {
        match ops.last() {
            StoreOpModel::Put(k, v) => apply_ops(m, ops.drop_last()).insert(k, v),
            StoreOpModel::Delete(k) => apply_ops(m, ops.drop_last()).remove(k),
        }
    }
}

impl Batch {
    /// Makes the changes `ops`, in order; stops at the first that fails.
    pub fn apply(&mut self, ops: &Vec<StoreOp>) -> (res: Result<(), Error>)
        requires
            batch_contents(*old(self)).dom().finite(),
        ensures
            res is Ok ==> batch_contents(*final(self)) == apply_ops(batch_contents(*old(self)), views(ops@)),
            res is Ok ==> batch_contents(*final(self)).dom().finite(),
            res matches Err(e) ==> is_lmdb_error(e),
    {
        let ghost m0 = batch_contents(*self);
        let mut i: usize = 0;
        while i < ops.len()
            invariant
                i <= ops@.len(),
                batch_contents(*self) == apply_ops(m0, views(ops@).take(i as int)),
                batch_contents(*self).dom().finite(),
            decreases ops@.len() - i,
        {
            assert(views(ops@).take(i + 1).drop_last() =~= views(ops@).take(i as int));
            match &ops[i] {
                StoreOp::Put(k, v) => {
                    self.put(k.as_slice(), v.as_slice())?;
                },
                StoreOp::Delete(k) => {
                    self.delete(k.as_slice())?;
                },
            }
            i = i + 1;
        }
        assert(views(ops@).take(ops@.len() as int) =~= views(ops@));
        Ok(())
    }

    /// The entries whose keys start with `prefix`, in key order.
    pub fn entries_with_prefix(&self, prefix: &[u8]) -> (res: Result<Vec<(Vec<u8>, Vec<u8>)>, Error>)
        requires
            batch_contents(*self).dom().finite(),
        ensures
            res matches Ok(es) ==> views(es@) == listing(batch_contents(*self), prefix@),
            res matches Err(e) ==> is_lmdb_error(e),
    {
        let ghost m = batch_contents(*self);
        let ghost p = prefix@;
        let mut out: Vec<(Vec<u8>, Vec<u8>)> = Vec::new();
        let mut cur: Vec<u8> = Vec::new();
        let mut i: usize = 0;
        while i < prefix.len()
            invariant
                i <= prefix@.len(),
                cur@ == prefix@.take(i as int),
            decreases prefix@.len() - i,
        {
            cur.push(prefix[i]);
            assert(cur@ =~= prefix@.take(i + 1));
            i = i + 1;
        }
        assert(cur@ =~= p);
        proof {
            lemma_lex_refl(p);
            assert forall|j: Seq<u8>| m.contains_key(j) && has_prefix(j, p) implies !lex_lt(j, cur@) by {
                lemma_prefix_le(p, j);
                if lex_lt(j, cur@) {
                    lemma_lex_antisym(j, p);
                }
            }
        }
        let mut done = false;
        while !done
            invariant
                m == batch_contents(*self),
                m.dom().finite(),
                p == prefix@,
                lex_le(p, cur@),
                forall|t: int| 0 <= t < out@.len() ==> #[trigger] lex_lt(out@[t].0@, cur@),
                forall|t: int|
                    0 <= t < out@.len() ==> m.contains_key(#[trigger] out@[t].0@) && m[out@[t].0@] == out@[t].1@
                        && has_prefix(out@[t].0@, p),
                forall|a: int, b: int| 0 <= a < b < out@.len() ==> lex_lt(#[trigger] out@[a].0@, #[trigger] out@[b].0@),
                forall|j: Seq<u8>|
                    #[trigger] m.contains_key(j) && has_prefix(j, p) && lex_lt(j, cur@) ==> exists|t: int|
                        0 <= t < out@.len() && out@[t].0@ == j,
                done ==> forall|j: Seq<u8>| #[trigger] m.contains_key(j) && has_prefix(j, p) ==> lex_lt(j, cur@),
            decreases m.dom().filter(|j: Seq<u8>| lex_le(cur@, j)).len(), if done { 0int } else { 1int },
        {
            let ghost old_cur = cur@;
            let ghost old_set = m.dom().filter(|j: Seq<u8>| lex_le(old_cur, j));
            match self.seek(cur.as_slice())? {
                None => {
                    proof {
                        assert forall|j: Seq<u8>| #[trigger] m.contains_key(j) && has_prefix(j, p) implies lex_lt(j, cur@) by {
                            lemma_lex_total(j, cur@);
                        }
                    }
                    done = true;
                },
                Some((k, v)) => {
                    let mut starts = k.len() >= prefix.len();
                    let mut t: usize = 0;
                    while starts && t < prefix.len()
                        invariant
                            t <= prefix@.len(),
                            p == prefix@,
                            starts ==> k@.len() >= prefix@.len(),
                            starts <==> (k@.len() >= prefix@.len() && forall|s: int| 0 <= s < t ==> k@[s] == prefix@[s]),
                        decreases prefix@.len() - t,
                    {
                        if k[t] != prefix[t] {
                            starts = false;
                        }
                        t = t + 1;
                    }
                    if starts {
                        assert(k@.take(p.len() as int) =~= p);
                    } else {
                        assert(!has_prefix(k@, p)) by {
                            if has_prefix(k@, p) {
                                if k@.len() >= prefix@.len() {
                                    let s = choose|s: int| 0 <= s < t && k@[s] != prefix@[s];
                                    assert(k@.take(p.len() as int)[s] == k@[s]);
                                }
                            }
                        }
                    }
                    if !starts {
                        proof {
                            lemma_lex_trans(p, cur@, k@);
                            assert forall|j: Seq<u8>| #[trigger] m.contains_key(j) && has_prefix(j, p) implies lex_lt(
                                j,
                                cur@,
                            ) by {
                                lemma_prefix_block(p, k@, j);
                                lemma_lex_total(j, cur@);
                                if lex_le(cur@, j) {
                                    lemma_lex_antisym(j, k@);
                                }
                            }
                        }
                        done = true;
                    } else {
                        let ghost kk = k@;
                        let ghost before = out@;
                        let mut next = k.clone();
                        next.push(0u8);
                        assert(next@ == kk.push(0u8));
                        proof {
                            // everything listed so far comes before the new key
                            assert forall|t2: int| 0 <= t2 < before.len() implies #[trigger] lex_lt(before[t2].0@, kk) by {
                                lemma_lex_trans(before[t2].0@, old_cur, kk);
                                if before[t2].0@ == kk {
                                    lemma_lex_antisym(kk, old_cur);
                                }
                            }
                            // the keys from the new cursor on are fewer
                            let new_set = m.dom().filter(|j: Seq<u8>| lex_le(kk.push(0u8), j));
                            assert(new_set.subset_of(old_set)) by {
                                assert forall|j: Seq<u8>| new_set.contains(j) implies old_set.contains(j) by {
                                    lemma_successor(kk, j);
                                    lemma_lex_trans(old_cur, kk, j);
                                }
                            }
                            assert(old_set.contains(kk));
                            assert(!new_set.contains(kk)) by {
                                lemma_successor(kk, kk);
                            }
                            m.dom().lemma_len_filter(|j: Seq<u8>| lex_le(old_cur, j));
                            assert(new_set.subset_of(old_set.remove(kk)));
                            vstd::set_lib::lemma_len_subset(new_set, old_set.remove(kk));
                        }
                        out.push((k, v));
                        cur = next;
                        proof {
                            lemma_lex_refl(cur@);
                            lemma_successor(kk, cur@);
                            assert(lex_lt(kk, cur@));
                            assert forall|t2: int| 0 <= t2 < out@.len() implies #[trigger] lex_lt(out@[t2].0@, cur@) by {
                                if t2 < before.len() {
                                    assert(out@[t2] == before[t2]);
                                    assert(lex_lt(before[t2].0@, kk));
                                    lemma_lex_trans(out@[t2].0@, kk, cur@);
                                    if out@[t2].0@ == cur@ {
                                        lemma_lex_antisym(kk, cur@);
                                    }
                                } else {
                                    assert(out@[t2].0@ == kk);
                                }
                            }
                            assert forall|a: int, b: int| 0 <= a < b < out@.len() implies lex_lt(
                                #[trigger] out@[a].0@,
                                #[trigger] out@[b].0@,
                            ) by {
                                if b < before.len() {
                                    assert(out@[a] == before[a] && out@[b] == before[b]);
                                } else {
                                    assert(out@[a] == before[a]);
                                    assert(lex_lt(before[a].0@, kk));
                                }
                            }
                            assert forall|t2: int|
                                0 <= t2 < out@.len() implies m.contains_key(#[trigger] out@[t2].0@) && m[out@[t2].0@]
                                == out@[t2].1@ && has_prefix(out@[t2].0@, p) by {
                                if t2 < before.len() {
                                    assert(out@[t2] == before[t2]);
                                }
                            }
                            assert forall|j: Seq<u8>| #[trigger] m.contains_key(j) && has_prefix(j, p) && lex_lt(j, cur@)
                                implies exists|t2: int| 0 <= t2 < out@.len() && out@[t2].0@ == j by {
                                lemma_lex_total(j, old_cur);
                                if lex_lt(j, old_cur) {
                                    let t2 = choose|t2: int| 0 <= t2 < before.len() && before[t2].0@ == j;
                                    assert(out@[t2] == before[t2]);
                                } else {
                                    // from the old cursor on, `kk` is the least key
                                    assert(lex_le(kk, j));
                                    lemma_successor(kk, j);
                                    assert(j == kk) by {
                                        if j != kk {
                                            lemma_lex_antisym(j, cur@);
                                        }
                                    }
                                    assert(out@[before.len() as int].0@ == j);
                                }
                            }
                            lemma_lex_trans(p, old_cur, kk);
                            lemma_lex_trans(p, kk, cur@);
                        }
                    }
                },
            }
        }
        proof {
            let es = views(out@);
            assert(is_listing(m, p, es)) by {
                assert forall|t2: int| 0 <= t2 < es.len() implies m.contains_key(#[trigger] es[t2].0) && m[es[t2].0] == es[t2].1
                    && has_prefix(es[t2].0, p) by {
                    assert(es[t2] == (out@[t2].0@, out@[t2].1@));
                }
                assert forall|a: int, b: int| 0 <= a < b < es.len() implies lex_lt(#[trigger] es[a].0, #[trigger] es[b].0) by {
                    assert(es[a].0 == out@[a].0@ && es[b].0 == out@[b].0@);
                }
                assert forall|k: Seq<u8>| #[trigger] m.contains_key(k) && has_prefix(k, p) implies exists|t2: int|
                    0 <= t2 < es.len() && es[t2].0 == k by {
                    let t2 = choose|t2: int| 0 <= t2 < out@.len() && out@[t2].0@ == k;
                    assert(es[t2].0 == k);
                }
            }
            lemma_listing_unique(m, p, es, listing(m, p));
        }
        Ok(out)
    }
}

} // verus!
