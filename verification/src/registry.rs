//! The revocation registry: one non-decreasing epoch per issuer identity.
//! Raising an issuer's epoch invalidates every capability that embeds a
//! smaller value; the counter is increment-only, so a revoked capability
//! never comes back.

use vstd::prelude::*;

verus! {

broadcast use vstd::seq::group_seq_axioms;

/// A failure of the revocation registry.
#[derive(Clone, Copy, Debug, PartialEq, Eq, Structural)]
pub enum RevocError {
    /// The issuer's epoch is at the counter's maximum and cannot rise.
    Overflow,
}

/// The epoch a row sequence assigns to an issuer; an issuer without a row
/// is at epoch zero.
spec fn epoch_of_rows(rows: Seq<(u128, u64)>, issuer: u128) -> u64
    decreases rows.len(),
{
    if rows.len() == 0 {
        0
    } else if rows.last().0 == issuer {
        rows.last().1
    } else {
        epoch_of_rows(rows.drop_last(), issuer)
    }
}

spec fn issuers_unique(rows: Seq<(u128, u64)>) -> bool {
    forall|i: int, j: int| 0 <= i < j < rows.len() ==> rows[i].0 != rows[j].0
}

/// A row determines its issuer's epoch when issuers are unique.
proof fn lemma_epoch_of_row(rows: Seq<(u128, u64)>, i: int)
    requires
        issuers_unique(rows),
        0 <= i < rows.len(),
    ensures
        epoch_of_rows(rows, rows[i].0) == rows[i].1,
    decreases rows.len(),
{
    if i < rows.len() - 1 {
        assert(rows[i].0 != rows.last().0);
        assert(rows.drop_last()[i] == rows[i]);
        lemma_epoch_of_row(rows.drop_last(), i);
    }
}

/// An issuer with no row is at epoch zero.
proof fn lemma_epoch_absent(rows: Seq<(u128, u64)>, issuer: u128)
    requires
        forall|i: int| 0 <= i < rows.len() ==> rows[i].0 != issuer,
    ensures
        epoch_of_rows(rows, issuer) == 0,
    decreases rows.len(),
{
    if rows.len() > 0 {
        lemma_epoch_absent(rows.drop_last(), issuer);
    }
}

/// Updating one row changes that issuer's epoch and no other.
proof fn lemma_epoch_update(rows: Seq<(u128, u64)>, i: int, v: u64, q: u128)
    requires
        issuers_unique(rows),
        0 <= i < rows.len(),
    ensures
        epoch_of_rows(rows.update(i, (rows[i].0, v)), q) == if q == rows[i].0 {
            v
        } else {
            epoch_of_rows(rows, q)
        },
    decreases rows.len(),
{
    let updated = rows.update(i, (rows[i].0, v));
    if i == rows.len() - 1 {
        assert(updated.last() == (rows[i].0, v));
        assert(updated.drop_last() =~= rows.drop_last());
        if q == rows[i].0 {
        } else {
            assert(rows.last().0 != q || rows.last() == rows[i]);
        }
    } else {
        assert(updated.last() == rows.last());
        assert(updated.drop_last() =~= rows.drop_last().update(i, (rows[i].0, v)));
        assert(rows.drop_last()[i] == rows[i]);
        lemma_epoch_update(rows.drop_last(), i, v, q);
        assert(rows[i].0 != rows.last().0);
    }
}

/// A fresh row sets its issuer's epoch and no other.
proof fn lemma_epoch_push(rows: Seq<(u128, u64)>, issuer: u128, v: u64, q: u128)
    requires
        forall|i: int| 0 <= i < rows.len() ==> rows[i].0 != issuer,
    ensures
        epoch_of_rows(rows.push((issuer, v)), q) == if q == issuer {
            v
        } else {
            epoch_of_rows(rows, q)
        },
{
    let grown = rows.push((issuer, v));
    assert(grown.last() == (issuer, v));
    assert(grown.drop_last() =~= rows);
    if q == issuer {
        lemma_epoch_absent(rows, issuer);
    }
}

/// The per-issuer epoch registry.  Readers take a snapshot of an issuer's
/// current epoch; the issuer alone raises it, one step at a time.
pub struct RevocationRegistry {
    rows: Vec<(u128, u64)>,
}

impl RevocationRegistry {
    /// The epoch currently published for an issuer; an issuer that never
    /// advanced is at epoch zero.
    pub closed spec fn spec_epoch(&self, issuer: u128) -> u64 {
        epoch_of_rows(self.rows@, issuer)
    }

    /// Well-formedness: one row per issuer.
    pub closed spec fn wf(&self) -> bool {
        issuers_unique(self.rows@)
    }

    /// A fresh registry: every issuer is at epoch zero.
    pub fn new() -> (r: RevocationRegistry)
        ensures
            r.wf(),
            forall|issuer: u128| r.spec_epoch(issuer) == 0,
    {
        RevocationRegistry { rows: Vec::new() }
    }

    /// Read the issuer's currently published epoch.
    pub fn current_epoch(&self, issuer: u128) -> (r: u64)
        requires
            self.wf(),
        ensures
            r == self.spec_epoch(issuer),
    {
        let n = self.rows.len();
        let mut i: usize = 0;
        while i < n
            invariant
                self.wf(),
                n == self.rows@.len(),
                i <= n,
                forall|j: int| 0 <= j < i ==> self.rows@[j].0 != issuer,
            decreases n - i,
        {
            if self.rows[i].0 == issuer {
                proof {
                    lemma_epoch_of_row(self.rows@, i as int);
                }
                return self.rows[i].1;
            }
            i = i + 1;
        }
        proof {
            lemma_epoch_absent(self.rows@, issuer);
        }
        0
    }

    /// Raise the issuer's epoch by one.  The increment is the only
    /// transition: no epoch ever decreases, so every other issuer's epoch
    /// is untouched, and failure (only at the counter's maximum) changes
    /// nothing.
    pub fn advance_epoch(&mut self, issuer: u128) -> (r: Result<(), RevocError>)
        requires
            old(self).wf(),
        ensures
            final(self).wf(),
            r is Ok <==> old(self).spec_epoch(issuer) < u64::MAX,
            r is Ok ==> final(self).spec_epoch(issuer) == old(self).spec_epoch(issuer) + 1,
            forall|q: u128|
                q != issuer ==> final(self).spec_epoch(q) == old(self).spec_epoch(q),
            r is Err ==> *final(self) == *old(self) && r == Err::<(), RevocError>(
                RevocError::Overflow,
            ),
            forall|q: u128| final(self).spec_epoch(q) >= old(self).spec_epoch(q),
    {
        let n = self.rows.len();
        let mut i: usize = 0;
        while i < n
            invariant
                old(self).wf(),
                *self == *old(self),
                n == self.rows@.len(),
                i <= n,
                forall|j: int| 0 <= j < i ==> self.rows@[j].0 != issuer,
            decreases n - i,
        {
            if self.rows[i].0 == issuer {
                proof {
                    lemma_epoch_of_row(self.rows@, i as int);
                }
                let cur = self.rows[i].1;
                if cur == u64::MAX {
                    return Err(RevocError::Overflow);
                }
                let ghost old_rows = self.rows@;
                self.rows[i] = (issuer, cur + 1);
                proof {
                    assert(self.rows@ =~= old_rows.update(i as int, (old_rows[i as int].0, (cur
                        + 1) as u64)));
                    assert forall|q: u128| true implies self.spec_epoch(q) == (if q
                        == issuer {
                        (cur + 1) as u64
                    } else {
                        old(self).spec_epoch(q)
                    }) by {
                        lemma_epoch_update(old_rows, i as int, (cur + 1) as u64, q);
                    }
                }
                return Ok(());
            }
            i = i + 1;
        }
        proof {
            lemma_epoch_absent(self.rows@, issuer);
        }
        let ghost old_rows = self.rows@;
        self.rows.push((issuer, 1));
        proof {
            assert forall|q: u128| true implies self.spec_epoch(q) == (if q == issuer {
                1u64
            } else {
                old(self).spec_epoch(q)
            }) by {
                lemma_epoch_push(old_rows, issuer, 1, q);
            }
            assert forall|a: int, b: int|
                0 <= a < b < self.rows@.len() implies self.rows@[a].0 != self.rows@[b].0 by {
                if b < self.rows@.len() - 1 {
                    assert(self.rows@[a] == old_rows[a] && self.rows@[b] == old_rows[b]);
                } else {
                    assert(self.rows@[a] == old_rows[a]);
                }
            }
        }
        Ok(())
    }
}

} // verus!
