//! Programs grouped by how many other programs depend on them, for choosing
//! seeds with a bias toward the popular ones.

use crate::random::{choose_program_id, choose_weighted_pair, random_cluster_id, weight_sum};
use rand::Rng;
use vstd::arithmetic::power2::{lemma2_to64, pow2};
use vstd::prelude::*;
use vstd::string::StringExecFns;

verus! {

/// Number of popularity clusters. Cluster `0` holds the programs that nothing
/// depends on, cluster `9` the most used ones.
pub const NUMBER_OF_CLUSTERS: u8 = 10;

/// One line of the popularity table: a program and its cluster.
#[derive(Clone, Copy, Debug, PartialEq, Eq, Structural)]
pub struct Record {
    pub program_id: u32,
    pub popularity_cluster_id: u8,
}

impl Record {
    /// The record of `program_id` in cluster `popularity_cluster_id`.
    pub open spec fn spec_new(program_id: u32, popularity_cluster_id: u8) -> Record {
        Record { program_id, popularity_cluster_id }
    }

    #[verifier::when_used_as_spec(spec_new)]
    pub fn new(program_id: u32, popularity_cluster_id: u8) -> (r: Self)
        ensures
            r == Record::spec_new(program_id, popularity_cluster_id),
    {
        Self { program_id: program_id, popularity_cluster_id: popularity_cluster_id }
    }
}

/// Why a popularity table was refused.
#[derive(Clone, Copy, Debug, PartialEq, Eq, Structural)]
pub enum ProgramPopularityError {
    /// A record names a cluster beyond the last one.
    PopularityClusterIdOutOfBounds,
}

impl ProgramPopularityError {
    /// The fault in words.
    pub fn to_string(&self) -> (r: String)
        ensures
            r@ == "Cluster id is out of bounds"@,
    {
        match self {
            ProgramPopularityError::PopularityClusterIdOutOfBounds => String::from_str(
                "Cluster id is out of bounds",
            ),
        }
    }
}

/// The program ids of the records that declare `cluster_id`, in the order of
/// the records.
pub open spec fn cluster_members(records: Seq<Record>, cluster_id: u8) -> Seq<u32>
    decreases records.len(),
{
    if records.len() == 0 {
        Seq::empty()
    } else if records.last().popularity_cluster_id == cluster_id {
        cluster_members(records.drop_last(), cluster_id).push(records.last().program_id)
    } else {
        cluster_members(records.drop_last(), cluster_id)
    }
}

/// True when some record declares `cluster_id` for `program_id`.
pub open spec fn declares(records: Seq<Record>, cluster_id: u8, program_id: u32) -> bool {
    exists|i: int|
        0 <= i < records.len() && #[trigger] records[i] == Record::spec_new(
            program_id,
            cluster_id,
        )
}

/// True when every record declares one of the ten clusters.
pub open spec fn clusters_in_bounds(records: Seq<Record>) -> bool {
    forall|i: int|
        0 <= i < records.len() ==> (#[trigger] records[i]).popularity_cluster_id
            < NUMBER_OF_CLUSTERS
}

/// The weight of a cluster in the weighted choice: two to the cluster id, so
/// `1, 2, 4, ..., 512`.
pub open spec fn cluster_weight(cluster_id: nat) -> nat {
    pow2(cluster_id)
}

/// Every record's program id stands in the cluster that the record declares,
/// and a cluster holds nothing but the ids of records that declare it.
pub proof fn lemma_cluster_members(records: Seq<Record>, cluster_id: u8)
    ensures
        forall|i: int|
            0 <= i < records.len() && (#[trigger] records[i]).popularity_cluster_id == cluster_id
                ==> cluster_members(records, cluster_id).contains(records[i].program_id),
        forall|k: int|
            0 <= k < cluster_members(records, cluster_id).len() ==> declares(
                records,
                cluster_id,
                #[trigger] cluster_members(records, cluster_id)[k],
            ),
        cluster_members(records, cluster_id).len() <= records.len(),
    decreases records.len(),
{
    if records.len() > 0 {
        let rest = records.drop_last();
        let members = cluster_members(records, cluster_id);
        let fewer = cluster_members(rest, cluster_id);
        lemma_cluster_members(rest, cluster_id);
        assert forall|i: int|
            0 <= i < records.len() && (#[trigger] records[i]).popularity_cluster_id
                == cluster_id implies members.contains(records[i].program_id) by {
            if i < records.len() - 1 {
                assert(rest[i] == records[i]);
                let k = choose|k: int| 0 <= k < fewer.len() && fewer[k] == rest[i].program_id;
                assert(members[k] == records[i].program_id);
            } else {
                assert(members[members.len() - 1] == records[i].program_id);
            }
        }
        assert forall|k: int| 0 <= k < members.len() implies declares(
            records,
            cluster_id,
            #[trigger] members[k],
        ) by {
            if k < fewer.len() {
                assert(declares(rest, cluster_id, fewer[k]));
                let i = choose|i: int|
                    0 <= i < rest.len() && rest[i] == Record::spec_new(fewer[k], cluster_id);
                assert(records[i] == rest[i]);
            } else {
                let i = records.len() - 1;
                assert(records[i] == Record::spec_new(members[k], cluster_id));
            }
        }
    }
}

/// The clusters together hold as many ids as there are records, when every
/// record declares one of the ten clusters: no record is lost and none is
/// counted twice.
pub proof fn lemma_cluster_sizes(records: Seq<Record>)
    requires
        clusters_in_bounds(records),
    ensures
        cluster_members(records, 0).len() + cluster_members(records, 1).len() + cluster_members(
            records,
            2,
        ).len() + cluster_members(records, 3).len() + cluster_members(records, 4).len()
            + cluster_members(records, 5).len() + cluster_members(records, 6).len()
            + cluster_members(records, 7).len() + cluster_members(records, 8).len()
            + cluster_members(records, 9).len() == records.len(),
    decreases records.len(),
{
    if records.len() > 0 {
        let rest = records.drop_last();
        assert forall|i: int| 0 <= i < rest.len() implies (#[trigger] rest[i]).popularity_cluster_id
            < NUMBER_OF_CLUSTERS by {
            assert(rest[i] == records[i]);
        }
        lemma_cluster_sizes(rest);
        assert(records[records.len() - 1].popularity_cluster_id < NUMBER_OF_CLUSTERS);
    }
}

/// The known programs in ten clusters of rising popularity.
///
/// Picking a seed by weighted choice over the clusters is cheap, where a
/// weighted choice over all programs would not be.
#[derive(Debug)]
pub struct PopularProgramContainer {
    cluster_program_ids: Vec<Vec<u32>>,
}

impl View for PopularProgramContainer {
    type V = Seq<Seq<u32>>;

    closed spec fn view(&self) -> Seq<Seq<u32>> {
        Seq::new(self.cluster_program_ids@.len(), |i: int| self.cluster_program_ids@[i]@)
    }
}

impl Clone for PopularProgramContainer {
    fn clone(&self) -> (r: Self)
        ensures
            r@ == self@,
    {
        proof {
            use_type_invariant(&*self);
        }
        let mut clusters: Vec<Vec<u32>> = Vec::new();
        let mut i: usize = 0;
        while i < self.cluster_program_ids.len()
            invariant
                i <= self.cluster_program_ids@.len(),
                clusters@.len() == i,
                forall|k: int| 0 <= k < i ==> (#[trigger] clusters@[k])@ == self@[k],
            decreases self.cluster_program_ids@.len() - i,
        {
            let ids: Vec<u32> = self.cluster_program_ids[i].clone();
            assert(ids@ =~= self.cluster_program_ids@[i as int]@);
            clusters.push(ids);
            i += 1;
        }
        let r = PopularProgramContainer { cluster_program_ids: clusters };
        assert(r@ =~= self@);
        r
    }
}

impl PopularProgramContainer {
    #[verifier::type_invariant]
    spec fn has_all_clusters(self) -> bool {
        self.cluster_program_ids@.len() == NUMBER_OF_CLUSTERS
    }

    /// The clusters, least popular first.
    pub fn cluster_program_ids(&self) -> (r: &Vec<Vec<u32>>)
        ensures
            r@.len() == NUMBER_OF_CLUSTERS,
            self@.len() == NUMBER_OF_CLUSTERS,
            forall|i: int| 0 <= i < NUMBER_OF_CLUSTERS ==> (#[trigger] r@[i])@ == self@[i],
    {
        proof {
            use_type_invariant(&*self);
        }
        &self.cluster_program_ids
    }

    /// The `(cluster, weight)` pairs of the weighted choice, in cluster order.
    pub fn cluster_weights() -> (r: Vec<(usize, usize)>)
        ensures
            r@.len() == NUMBER_OF_CLUSTERS,
            forall|c: int|
                0 <= c < NUMBER_OF_CLUSTERS ==> (#[trigger] r@[c]).0 == c && r@[c].1
                    == cluster_weight(c as nat),
            weight_sum(r@) == 1023,
    {
        let r: Vec<(usize, usize)> = vec![
            (0, 1),
            (1, 2),
            (2, 4),
            (3, 8),
            (4, 16),
            (5, 32),
            (6, 64),
            (7, 128),
            (8, 256),
            (9, 512),
        ];
        proof {
            lemma2_to64();
            let s = r@;
            let s9 = s.drop_last();
            let s8 = s9.drop_last();
            let s7 = s8.drop_last();
            let s6 = s7.drop_last();
            let s5 = s6.drop_last();
            let s4 = s5.drop_last();
            let s3 = s4.drop_last();
            let s2 = s3.drop_last();
            let s1 = s2.drop_last();
            let s0 = s1.drop_last();
            assert(weight_sum(s0) == 0);
            assert(weight_sum(s1) == 1);
            assert(weight_sum(s2) == 3);
            assert(weight_sum(s3) == 7);
            assert(weight_sum(s4) == 15);
            assert(weight_sum(s5) == 31);
            assert(weight_sum(s6) == 63);
            assert(weight_sum(s7) == 127);
            assert(weight_sum(s8) == 255);
            assert(weight_sum(s9) == 511);
        }
        r
    }

    /// Picks a cluster with probability proportional to its weight, then one
    /// of its programs. Gives nothing when the picked cluster is empty.
    pub fn choose_weighted_by_popularity<R: Rng + ?Sized>(&self, rng: &mut R) -> (r: Option<u32>)
        ensures
            r matches Some(id) ==> exists|c: int|
                0 <= c < NUMBER_OF_CLUSTERS && (#[trigger] self@[c]).contains(id),
            (forall|c: int| 0 <= c < NUMBER_OF_CLUSTERS ==> (#[trigger] self@[c]).len() == 0)
                ==> r is None,
            (forall|c: int| 0 <= c < NUMBER_OF_CLUSTERS ==> (#[trigger] self@[c]).len() > 0)
                ==> r is Some,
    {
        let cluster_weight_vec = Self::cluster_weights();
        let picked = choose_weighted_pair(rng, &cluster_weight_vec);
        proof {
            let c = choose|c: int|
                0 <= c < cluster_weight_vec@.len() && cluster_weight_vec@[c] == picked;
            assert(picked.0 == c);
        }
        self.choose_from_cluster(rng, picked.0 as u8)
    }

    /// Picks one program of a cluster, each with the same probability. Gives
    /// nothing when the cluster is empty.
    pub fn choose_from_cluster<R: Rng + ?Sized>(&self, rng: &mut R, cluster_id: u8) -> (r: Option<
        u32,
    >)
        requires
            cluster_id < NUMBER_OF_CLUSTERS,
        ensures
            r is None <==> self@[cluster_id as int].len() == 0,
            r matches Some(id) ==> self@[cluster_id as int].contains(id),
    {
        proof {
            use_type_invariant(&*self);
        }
        let program_ids: &Vec<u32> = &self.cluster_program_ids[cluster_id as usize];
        choose_program_id(rng, program_ids)
    }

    /// Picks one program of the most popular cluster.
    pub fn choose_most_popular<R: Rng + ?Sized>(&self, rng: &mut R) -> (r: Option<u32>)
        ensures
            r is None <==> self@[9].len() == 0,
            r matches Some(id) ==> self@[9].contains(id),
    {
        self.choose_from_cluster(rng, 9)
    }

    /// Picks one of the clusters `1` to `7`, then one of its programs.
    pub fn choose_medium_popular<R: Rng + ?Sized>(&self, rng: &mut R) -> (r: Option<u32>)
        ensures
            r matches Some(id) ==> exists|c: int| 1 <= c < 8 && (#[trigger] self@[c]).contains(id),
            (forall|c: int| 1 <= c < 8 ==> (#[trigger] self@[c]).len() == 0) ==> r is None,
            (forall|c: int| 1 <= c < 8 ==> (#[trigger] self@[c]).len() > 0) ==> r is Some,
    {
        let cluster_id: u8 = random_cluster_id(rng, 1, 8);
        self.choose_from_cluster(rng, cluster_id)
    }

    /// Picks one program of the least popular cluster.
    pub fn choose_least_popular<R: Rng + ?Sized>(&self, rng: &mut R) -> (r: Option<u32>)
        ensures
            r is None <==> self@[0].len() == 0,
            r matches Some(id) ==> self@[0].contains(id),
    {
        self.choose_from_cluster(rng, 0)
    }
}

/// Sorts the records of a popularity table into the ten clusters.
///
/// Fails when a record names a cluster beyond the last one. Otherwise cluster
/// `k` holds the program ids of the records that declare `k`, in the order of
/// the records.
pub fn convert_records_to_clusters(records: Vec<Record>) -> (r: Result<
    PopularProgramContainer,
    ProgramPopularityError,
>)
    ensures
        r is Ok <==> clusters_in_bounds(records@),
        r matches Ok(container) ==> container@.len() == NUMBER_OF_CLUSTERS && forall|k: int|
            0 <= k < NUMBER_OF_CLUSTERS ==> #[trigger] container@[k] == cluster_members(
                records@,
                k as u8,
            ),
{
    // Ensure there isn't too many clusters
    let mut max_cluster_id: u8 = 0;
    let mut i: usize = 0;
    while i < records.len()
        invariant
            i <= records.len(),
            forall|j: int| 0 <= j < i ==> (#[trigger] records@[j]).popularity_cluster_id
                <= max_cluster_id,
            max_cluster_id > 0 ==> exists|j: int|
                0 <= j < i && (#[trigger] records@[j]).popularity_cluster_id == max_cluster_id,
        decreases records.len() - i,
    {
        if max_cluster_id < records[i].popularity_cluster_id {
            max_cluster_id = records[i].popularity_cluster_id;
        }
        i += 1;
    }
    if max_cluster_id >= NUMBER_OF_CLUSTERS {
        return Err(ProgramPopularityError::PopularityClusterIdOutOfBounds);
    }
    // Identify program_ids for each cluster

    let mut clusters: Vec<Vec<u32>> = Vec::new();
    let mut cluster_id: u8 = 0;
    while cluster_id < NUMBER_OF_CLUSTERS
        invariant
            cluster_id <= NUMBER_OF_CLUSTERS,
            clusters@.len() == cluster_id,
            forall|k: int|
                0 <= k < cluster_id ==> (#[trigger] clusters@[k])@ == cluster_members(
                    records@,
                    k as u8,
                ),
        decreases NUMBER_OF_CLUSTERS - cluster_id,
    {
        let mut program_ids: Vec<u32> = Vec::new();
        let mut j: usize = 0;
        while j < records.len()
            invariant
                j <= records.len(),
                program_ids@ == cluster_members(records@.subrange(0, j as int), cluster_id),
            decreases records.len() - j,
        {
            assert(records@.subrange(0, j + 1).drop_last() =~= records@.subrange(0, j as int));
            if records[j].popularity_cluster_id == cluster_id {
                program_ids.push(records[j].program_id);
            }
            j += 1;
        }
        assert(records@.subrange(0, j as int) =~= records@);
        clusters.push(program_ids);
        cluster_id += 1;
    }
    let container = PopularProgramContainer { cluster_program_ids: clusters };
    Ok(container)
}

} // verus!
