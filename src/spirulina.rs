//! Spirulina production records: registered producers, their batches, and
//! processing steps. Every identifier and text field is bounded in length.

use vstd::prelude::*;
use crate::bridge::bytes_eq;
use crate::verification::AccountId;

verus! {

#[derive(Debug, Clone, Copy, PartialEq, Eq, Structural)]
pub enum BatchStatus {
    Registered,
    Processed,
    Shipped,
    Delivered,
}

#[derive(Debug)]
pub struct Producer {
    pub account_id: AccountId,
    pub name: Vec<u8>,
    pub location: Vec<u8>,
    pub verified: bool,
}

#[derive(Debug)]
pub struct SpirulinaBatch {
    pub id: Vec<u8>,
    pub producer: AccountId,
    pub cultivation_date: u64,
    pub location: Vec<u8>,
    pub status: BatchStatus,
    /// Descriptions of the processing steps, oldest first; at most the
    /// length bound of them.
    pub processing_steps: Vec<Vec<u8>>,
}

/// Nutritional content, in percent.
#[derive(Debug, Clone, Copy, PartialEq, Eq, Structural)]
pub struct NutritionalContent {
    pub protein: u8,
    pub vitamin_a: u8,
    pub vitamin_b12: u8,
    pub iron: u8,
    pub timestamp: u64,
}

#[derive(Debug, Clone, Copy, PartialEq, Eq, Structural)]
pub enum SpirulinaError {
    /// An identifier or text field exceeds the length bound.
    BatchIdTooLong,
    BatchAlreadyExists,
    ProducerNotRegistered,
    ProducerAlreadyRegistered,
    BatchNotFound,
    Unauthorized,
}

pub open spec fn find_spirulina_from(s: Seq<SpirulinaBatch>, id: Seq<u8>, k: int) -> int
    decreases s.len() - k,
{
    if k < 0 || k >= s.len() {
        -1
    } else if s[k].id@ == id {
        k
    } else {
        find_spirulina_from(s, id, k + 1)
    }
}

pub open spec fn find_spirulina(s: Seq<SpirulinaBatch>, id: Seq<u8>) -> int {
    find_spirulina_from(s, id, 0)
}

pub open spec fn is_producer(p: Seq<Producer>, who: AccountId) -> bool {
    exists|i: int| 0 <= i < p.len() && #[trigger] p[i].account_id == who
}

proof fn lemma_find_spirulina_from(s: Seq<SpirulinaBatch>, id: Seq<u8>, k: int)
    requires
        0 <= k,
    ensures
        find_spirulina_from(s, id, k) == -1 ==> forall|j: int| k <= j < s.len() ==> #[trigger] s[j].id@ != id,
        find_spirulina_from(s, id, k) != -1 ==> k <= find_spirulina_from(s, id, k) < s.len() && s[find_spirulina_from(
            s,
            id,
            k,
        )].id@ == id,
    decreases s.len() - k,
{
    if k < s.len() {
        lemma_find_spirulina_from(s, id, k + 1);
    }
}

fn find_index(batches: &Vec<SpirulinaBatch>, id: &Vec<u8>) -> (r: Option<usize>)
    ensures
        match r {
            Some(i) => i as int == find_spirulina(batches@, id@),
            None => find_spirulina(batches@, id@) == -1,
        },
{
    let mut k: usize = 0;
    while k < batches.len()
        invariant
            k <= batches@.len(),
            find_spirulina(batches@, id@) == find_spirulina_from(batches@, id@, k as int),
        decreases batches@.len() - k,
    {
        if bytes_eq(&batches[k].id, id) {
            return Some(k);
        }
        k += 1;
    }
    None
}

fn producer_known(producers: &Vec<Producer>, who: AccountId) -> (r: bool)
    ensures
        r == is_producer(producers@, who),
{
    let mut k: usize = 0;
    while k < producers.len()
        invariant
            k <= producers@.len(),
            forall|j: int| 0 <= j < k ==> #[trigger] producers@[j].account_id != who,
        decreases producers@.len() - k,
    {
        if producers[k].account_id == who {
            return true;
        }
        k += 1;
    }
    false
}

/// Producers and batches, with the length bound on identifiers and texts.
pub struct SpirulinaRegistry {
    batches: Vec<SpirulinaBatch>,
    producers: Vec<Producer>,
    max_length: usize,
}

impl SpirulinaRegistry {
    pub closed spec fn batches(&self) -> Seq<SpirulinaBatch> {
        self.batches@
    }

    pub closed spec fn producers(&self) -> Seq<Producer> {
        self.producers@
    }

    pub closed spec fn max_length(&self) -> nat {
        self.max_length as nat
    }

    pub fn new(max_length: usize) -> (r: Self)
        ensures
            r.batches().len() == 0,
            r.producers().len() == 0,
            r.max_length() == max_length,
    {
        SpirulinaRegistry { batches: Vec::new(), producers: Vec::new(), max_length }
    }

    /// Registers `who` as an unverified producer.
    pub fn register_producer(&mut self, who: AccountId, name: Vec<u8>, location: Vec<u8>) -> (r: Result<(), SpirulinaError>)
        ensures
            final(self).max_length() == old(self).max_length(),
            final(self).batches() == old(self).batches(),
            is_producer(old(self).producers(), who) ==> r == Err::<(), SpirulinaError>(SpirulinaError::ProducerAlreadyRegistered),
            !is_producer(old(self).producers(), who) && (name@.len() > old(self).max_length() || location@.len()
                > old(self).max_length()) ==> r == Err::<(), SpirulinaError>(SpirulinaError::BatchIdTooLong),
            !is_producer(old(self).producers(), who) && name@.len() <= old(self).max_length() && location@.len()
                <= old(self).max_length() ==> {
                let p = final(self).producers().last();
                &&& r is Ok
                &&& final(self).producers().drop_last() == old(self).producers()
                &&& p.account_id == who
                &&& p.name@ == name@
                &&& p.location@ == location@
                &&& !p.verified
            },
            r is Err ==> *final(self) == *old(self),
    {
        if producer_known(&self.producers, who) {
            return Err(SpirulinaError::ProducerAlreadyRegistered);
        }
        if name.len() > self.max_length || location.len() > self.max_length {
            return Err(SpirulinaError::BatchIdTooLong);
        }
        self.producers.push(Producer { account_id: who, name, location, verified: false });
        assert(self.producers@.drop_last() =~= old(self).producers@);
        Ok(())
    }

    /// Registers batch `batch_id` of producer `who`.
    pub fn register_batch(&mut self, who: AccountId, batch_id: Vec<u8>, cultivation_date: u64, location: Vec<u8>) -> (r:
        Result<(), SpirulinaError>)
        ensures
            final(self).max_length() == old(self).max_length(),
            final(self).producers() == old(self).producers(),
            !is_producer(old(self).producers(), who) ==> r == Err::<(), SpirulinaError>(SpirulinaError::ProducerNotRegistered),
            is_producer(old(self).producers(), who) && batch_id@.len() > old(self).max_length() ==> r == Err::<(), SpirulinaError>(
                SpirulinaError::BatchIdTooLong,
            ),
            is_producer(old(self).producers(), who) && batch_id@.len() <= old(self).max_length() && find_spirulina(
                old(self).batches(),
                batch_id@,
            ) != -1 ==> r == Err::<(), SpirulinaError>(SpirulinaError::BatchAlreadyExists),
            is_producer(old(self).producers(), who) && batch_id@.len() <= old(self).max_length() && find_spirulina(
                old(self).batches(),
                batch_id@,
            ) == -1 && location@.len() > old(self).max_length() ==> r == Err::<(), SpirulinaError>(
                SpirulinaError::BatchIdTooLong,
            ),
            is_producer(old(self).producers(), who) && batch_id@.len() <= old(self).max_length() && find_spirulina(
                old(self).batches(),
                batch_id@,
            ) == -1 && location@.len() <= old(self).max_length() ==> {
                let b = final(self).batches().last();
                &&& r is Ok
                &&& final(self).batches().drop_last() == old(self).batches()
                &&& b.id@ == batch_id@
                &&& b.producer == who
                &&& b.cultivation_date == cultivation_date
                &&& b.location@ == location@
                &&& b.status == BatchStatus::Registered
                &&& b.processing_steps@.len() == 0
            },
            r is Err ==> *final(self) == *old(self),
    {
        if !producer_known(&self.producers, who) {
            return Err(SpirulinaError::ProducerNotRegistered);
        }
        if batch_id.len() > self.max_length {
            return Err(SpirulinaError::BatchIdTooLong);
        }
        proof {
            lemma_find_spirulina_from(self.batches@, batch_id@, 0);
        }
        if find_index(&self.batches, &batch_id).is_some() {
            return Err(SpirulinaError::BatchAlreadyExists);
        }
        if location.len() > self.max_length {
            return Err(SpirulinaError::BatchIdTooLong);
        }
        self.batches.push(SpirulinaBatch {
            id: batch_id,
            producer: who,
            cultivation_date,
            location,
            status: BatchStatus::Registered,
            processing_steps: Vec::new(),
        });
        assert(self.batches@.drop_last() =~= old(self).batches@);
        Ok(())
    }

    /// Records a processing step of batch `batch_id` by its producer and
    /// marks the batch processed. The step list holds at most the length
    /// bound of steps: a step that would exceed it clears the list.
    pub fn process_batch(&mut self, who: AccountId, batch_id: &Vec<u8>, process_description: Vec<u8>) -> (r: Result<
        (),
        SpirulinaError,
    >)
        ensures
            final(self).max_length() == old(self).max_length(),
            final(self).producers() == old(self).producers(),
            ({
                let i = find_spirulina(old(self).batches(), batch_id@);
                let b = old(self).batches()[i];
                let m = old(self).max_length();
                &&& batch_id@.len() > m ==> r == Err::<(), SpirulinaError>(SpirulinaError::BatchIdTooLong)
                &&& batch_id@.len() <= m && i == -1 ==> r == Err::<(), SpirulinaError>(SpirulinaError::BatchNotFound)
                &&& batch_id@.len() <= m && i != -1 && b.producer != who ==> r == Err::<(), SpirulinaError>(
                    SpirulinaError::Unauthorized,
                )
                &&& batch_id@.len() <= m && i != -1 && b.producer == who && process_description@.len() > m
                    ==> r == Err::<(), SpirulinaError>(SpirulinaError::BatchIdTooLong)
                &&& batch_id@.len() <= m && i != -1 && b.producer == who && process_description@.len() <= m ==> {
                    let nb = final(self).batches()[i];
                    let steps = b.processing_steps@.push(process_description);
                    &&& r is Ok
                    &&& final(self).batches().len() == old(self).batches().len()
                    &&& forall|j: int| 0 <= j < old(self).batches().len() && j != i ==> #[trigger] final(self).batches()[j] == old(self).batches()[j]
                    &&& nb.id@ == b.id@
                    &&& nb.producer == b.producer
                    &&& nb.cultivation_date == b.cultivation_date
                    &&& nb.location@ == b.location@
                    &&& nb.status == BatchStatus::Processed
                    &&& nb.processing_steps@ == if steps.len() <= m { steps } else { Seq::empty() }
                }
            }),
            r is Err ==> *final(self) == *old(self),
    {
        if batch_id.len() > self.max_length {
            return Err(SpirulinaError::BatchIdTooLong);
        }
        proof {
            lemma_find_spirulina_from(self.batches@, batch_id@, 0);
        }
        let i = match find_index(&self.batches, batch_id) {
            None => return Err(SpirulinaError::BatchNotFound),
            Some(i) => i,
        };
        if self.batches[i].producer != who {
            return Err(SpirulinaError::Unauthorized);
        }
        if process_description.len() > self.max_length {
            return Err(SpirulinaError::BatchIdTooLong);
        }
        let mut b = self.batches.remove(i);
        if b.processing_steps.len() < self.max_length {
            b.processing_steps.push(process_description);
        } else {
            b.processing_steps = Vec::new();
        }
        b.status = BatchStatus::Processed;
        self.batches.insert(i, b);
        assert(self.batches@ =~= old(self).batches@.update(i as int, b));
        Ok(())
    }

    /// The batch `batch_id`, if registered.
    pub fn spirulina_batch(&self, batch_id: &Vec<u8>) -> (r: Option<&SpirulinaBatch>)
        ensures
            ({
                let i = find_spirulina(self.batches(), batch_id@);
                &&& i != -1 ==> r == Some(&self.batches()[i])
                &&& i == -1 ==> r is None
            }),
    {
        proof {
            lemma_find_spirulina_from(self.batches@, batch_id@, 0);
        }
        match find_index(&self.batches, batch_id) {
            Some(i) => Some(&self.batches[i]),
            None => None,
        }
    }

    /// Whether `who` is a registered producer.
    pub fn registered_producer(&self, who: AccountId) -> (r: bool)
        ensures
            r == is_producer(self.producers(), who),
    {
        producer_known(&self.producers, who)
    }
}

} // verus!
