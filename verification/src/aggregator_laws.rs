use vstd::prelude::*;
use crate::aggregator::{
    spec_bit, spec_close_stats, spec_slot_index, spec_step, AggregatorModel, EntryModel,
    COMMIT_DELAY,
};
use crate::packet::PacketV;

verus! {

/// Some position of the arrival order `perm` names slot `s`.
pub open spec fn spec_slot_covered(perm: Seq<int>, n: int, s: int) -> bool {
    exists|i: int| 0 <= i < n && perm[i] == s
}

pub proof fn lemma_bit_or_set(b: u128, i: u128, j: u128)
    requires
        i < 128,
        j < 128,
    ensures
        spec_bit(b | (1u128 << i), j as int) == (spec_bit(b, j as int) || i == j),
{
    assert((((b | (1u128 << i)) >> j) & 1 == 1) == ((((b >> j) & 1) == 1) || i == j))
        by (bit_vector)
        requires
            i < 128,
            j < 128,
    ;
}

pub proof fn lemma_bit_zero(j: u128)
    requires
        j < 128,
    ensures
        !spec_bit(0u128, j as int),
{
    assert(((0u128 >> j) & 1) != 1) by (bit_vector);
}

/// Run the reassembly machine over a sequence of packets, collecting the
/// frames it emits, in order.
pub open spec fn spec_run(m: AggregatorModel, ps: Seq<PacketV>) -> (AggregatorModel, Seq<
    EntryModel,
>)
    decreases ps.len(),
{
    if ps.len() == 0 {
        (m, Seq::empty())
    } else {
        let st = spec_step(m, ps[0]);
        let rest = spec_run(st.0, ps.drop_first());
        (
            rest.0,
            match st.1 {
                Some(e) => seq![e] + rest.1,
                None => rest.1,
            },
        )
    }
}

pub proof fn lemma_run_snoc(m: AggregatorModel, ps: Seq<PacketV>, p: PacketV)
    ensures
        ({
            let pr = spec_run(m, ps);
            let st = spec_step(pr.0, p);
            spec_run(m, ps.push(p)) == (
                st.0,
                match st.1 {
                    Some(e) => pr.1.push(e),
                    None => pr.1,
                },
            )
        }),
    decreases ps.len(),
{
    reveal_with_fuel(spec_run, 3);
    let pr = spec_run(m, ps);
    let st = spec_step(pr.0, p);
    if ps.len() == 0 {
        assert(ps.push(p).drop_first() =~= Seq::<PacketV>::empty());
        assert(ps.push(p)[0] == p);
        match spec_step(m, p).1 {
            Some(e) => {
                assert(seq![e] + Seq::<EntryModel>::empty() =~= Seq::<EntryModel>::empty().push(
                    e,
                ));
            },
            None => {},
        }
    } else {
        assert(ps.push(p)[0] == ps[0]);
        assert(ps.push(p).drop_first() =~= ps.drop_first().push(p));
        lemma_run_snoc(spec_step(m, ps[0]).0, ps.drop_first(), p);
        let st0 = spec_step(m, ps[0]);
        let pr_rest = spec_run(st0.0, ps.drop_first());
        match st0.1 {
            Some(e0) => {
                match st.1 {
                    Some(e) => {
                        assert(seq![e0] + pr_rest.1.push(e) =~= (seq![e0] + pr_rest.1).push(e));
                    },
                    None => {},
                }
            },
            None => {},
        }
    }
}

/// Closing the statistics of a frame whose slots are all filled changes
/// nothing: no slot is zeroed and no miss is counted.
pub proof fn lemma_close_stats_all_set(
    packets: Seq<PacketV>,
    bitmap: u128,
    missing: Seq<u32>,
    zero: PacketV,
    k: int,
)
    requires
        forall|s: int| 0 <= s < k ==> spec_bit(bitmap, s),
    ensures
        spec_close_stats(packets, bitmap, missing, zero, k) == (packets, missing),
    decreases k,
{
    if k > 0 {
        lemma_close_stats_all_set(packets, bitmap, missing, zero, k - 1);
    }
}

/// State after the frame-fill phase: the first `j` packets of the arrival
/// order all land in the active frame; its count is `j`, its bitmap holds
/// exactly the slots seen so far, and each seen slot holds its packet.
proof fn lemma_fill_phase(m0: AggregatorModel, place: Seq<PacketV>, perm: Seq<int>, j: int)
    requires
        1 <= m0.required() <= 128,
        m0.active.count == 0,
        m0.active.bitmap == 0,
        m0.active.packets.len() == m0.required(),
        place.len() == m0.required(),
        forall|s: int|
            0 <= s < m0.required() ==> (#[trigger] place[s]).spec_frame_id()
                == m0.active.frame_id,
        forall|s: int| 0 <= s < m0.required() ==> spec_slot_index(m0, #[trigger] place[s]) == s,
        perm.len() == m0.required(),
        forall|i: int| 0 <= i < m0.required() ==> 0 <= #[trigger] perm[i] < m0.required(),
        0 <= j <= m0.required(),
    ensures
        ({
            let r = spec_run(m0, Seq::new(j as nat, |i: int| place[perm[i]]));
            &&& r.1 == Seq::<EntryModel>::empty()
            &&& r.0.profile == m0.profile
            &&& r.0.start_measurement_id == m0.start_measurement_id
            &&& r.0.total_measurements_per_frame == m0.total_measurements_per_frame
            &&& r.0.other == m0.other
            &&& r.0.hist == m0.hist
            &&& r.0.missing == m0.missing
            &&& r.0.dropped == m0.dropped
            &&& r.0.active.frame_id == m0.active.frame_id
            &&& r.0.active.count == j
            &&& r.0.active.packets.len() == m0.required()
            &&& forall|s: int|
                0 <= s < 128 ==> (spec_bit(r.0.active.bitmap, s) <==> exists|i: int|
                    0 <= i < j && perm[i] == s)
            &&& forall|s: int|
                (exists|i: int| 0 <= i < j && perm[i] == s) ==> r.0.active.packets[s] == place[s]
        }),
    decreases j,
{
    let arrivals = Seq::new(j as nat, |i: int| place[perm[i]]);
    if j == 0 {
        assert(arrivals =~= Seq::<PacketV>::empty());
        assert forall|s: int| 0 <= s < 128 implies !spec_bit(m0.active.bitmap, s) by {
            lemma_bit_zero(s as u128);
        }
    } else {
        lemma_fill_phase(m0, place, perm, j - 1);
        let prev_arrivals = Seq::new((j - 1) as nat, |i: int| place[perm[i]]);
        assert(arrivals =~= prev_arrivals.push(place[perm[j - 1]]));
        lemma_run_snoc(m0, prev_arrivals, place[perm[j - 1]]);
        let m1 = spec_run(m0, prev_arrivals).0;
        let p = place[perm[j - 1]];
        let idx = perm[j - 1];
        assert(spec_slot_index(m1, p) == spec_slot_index(m0, p));
        let st = spec_step(m1, p);
        let m2 = st.0;
        assert(m2.active.packets == m1.active.packets.update(idx, p));
        assert(m2.active.bitmap == m1.active.bitmap | (1u128 << (idx as u128)));
        assert forall|s: int|
            0 <= s < 128 implies (spec_bit(m2.active.bitmap, s) <==> exists|i: int|
                0 <= i < j && perm[i] == s) by {
            lemma_bit_or_set(m1.active.bitmap, idx as u128, s as u128);
            if spec_bit(m2.active.bitmap, s) {
                if spec_bit(m1.active.bitmap, s) {
                    let i = choose|i: int| 0 <= i < j - 1 && perm[i] == s;
                    assert(0 <= i < j && perm[i] == s);
                } else {
                    assert(idx == s);
                    assert(0 <= j - 1 < j && perm[j - 1] == s);
                }
            } else {
                assert(!spec_bit(m1.active.bitmap, s) && idx != s);
            }
        }
        assert forall|s: int| (exists|i: int| 0 <= i < j && perm[i] == s) implies m2
            .active.packets[s] == place[s] by {
            if idx == s {
                assert(m2.active.packets[s] == p);
            } else {
                let i = choose|i: int| 0 <= i < j && perm[i] == s;
                assert(i != j - 1);
                assert(0 <= i < j - 1 && perm[i] == s);
            }
        }
    }
}

/// State after the first `t` next-frame packets, `t` below the commit
/// delay: they fill the other entry, whose count is `t`, and the active
/// frame stays as it was.
proof fn lemma_trailer_phase(mr: AggregatorModel, trailer: Seq<PacketV>, f1: u16, t: int)
    requires
        1 <= mr.required() <= 128,
        mr.active.frame_id != f1,
        mr.other.frame_id != f1,
        trailer.len() >= t,
        forall|k: int|
            0 <= k < trailer.len() ==> (#[trigger] trailer[k]).spec_frame_id() == f1,
        forall|k: int|
            0 <= k < trailer.len() ==> 0 <= spec_slot_index(mr, #[trigger] trailer[k])
                < mr.required(),
        1 <= t <= COMMIT_DELAY - 1,
    ensures
        ({
            let r = spec_run(mr, trailer.take(t));
            &&& r.1 == Seq::<EntryModel>::empty()
            &&& r.0.profile == mr.profile
            &&& r.0.start_measurement_id == mr.start_measurement_id
            &&& r.0.total_measurements_per_frame == mr.total_measurements_per_frame
            &&& r.0.active == mr.active
            &&& r.0.hist == mr.hist
            &&& r.0.missing == mr.missing
            &&& r.0.other.frame_id == f1
            &&& r.0.other.count == t
        }),
    decreases t,
{
    if t == 1 {
        assert(trailer.take(1) =~= Seq::<PacketV>::empty().push(trailer[0]));
        lemma_run_snoc(mr, Seq::<PacketV>::empty(), trailer[0]);
    } else {
        lemma_trailer_phase(mr, trailer, f1, t - 1);
        assert(trailer.take(t) =~= trailer.take(t - 1).push(trailer[t - 1]));
        lemma_run_snoc(mr, trailer.take(t - 1), trailer[t - 1]);
        let m1 = spec_run(mr, trailer.take(t - 1)).0;
        assert(spec_slot_index(m1, trailer[t - 1]) == spec_slot_index(mr, trailer[t - 1]));
    }
}

/// Reordering tolerance and completeness of the reassembly machine: from a
/// fresh state, any arrival order of one packet per slot of a frame,
/// followed by one commit delay's worth of next-frame packets, emits exactly
/// one frame; it holds every packet at its slot and has every slot bit set.
/// The arrival order enters only through `perm`, so any permutation of the
/// same packets yields the same emitted frame.
pub proof fn lemma_reordering_tolerance(
    m0: AggregatorModel,
    place: Seq<PacketV>,
    perm: Seq<int>,
    trailer: Seq<PacketV>,
    f1: u16,
)
    requires
        1 <= m0.required() <= 128,
        m0.active.count == 0,
        m0.active.bitmap == 0,
        m0.active.packets.len() == m0.required(),
        m0.other.frame_id == m0.active.frame_id,
        f1 != m0.active.frame_id,
        place.len() == m0.required(),
        forall|s: int|
            0 <= s < m0.required() ==> (#[trigger] place[s]).spec_frame_id()
                == m0.active.frame_id,
        forall|s: int| 0 <= s < m0.required() ==> spec_slot_index(m0, #[trigger] place[s]) == s,
        perm.len() == m0.required(),
        forall|i: int| 0 <= i < m0.required() ==> 0 <= #[trigger] perm[i] < m0.required(),
        forall|s: int|
            0 <= s < m0.required() ==> #[trigger] spec_slot_covered(perm, m0.required(), s),
        trailer.len() == COMMIT_DELAY,
        forall|k: int|
            0 <= k < trailer.len() ==> (#[trigger] trailer[k]).spec_frame_id() == f1,
        forall|k: int|
            0 <= k < trailer.len() ==> 0 <= spec_slot_index(m0, #[trigger] trailer[k])
                < m0.required(),
    ensures
        ({
            let arrivals = Seq::new(m0.required() as nat, |i: int| place[perm[i]]);
            let r = spec_run(m0, arrivals + trailer);
            &&& r.1.len() == 1
            &&& r.1[0].frame_id == m0.active.frame_id
            &&& r.1[0].count == m0.required()
            &&& r.1[0].packets == place
            &&& forall|s: int|
                0 <= s < 128 ==> (spec_bit(r.1[0].bitmap, s) <==> s < m0.required())
        }),
{
    let required = m0.required();
    let arrivals = Seq::new(required as nat, |i: int| place[perm[i]]);
    lemma_fill_phase(m0, place, perm, required);
    let mr = spec_run(m0, arrivals).0;
    assert forall|k: int|
        0 <= k < trailer.len() implies 0 <= spec_slot_index(mr, #[trigger] trailer[k])
        < mr.required() by {
        assert(spec_slot_index(mr, trailer[k]) == spec_slot_index(m0, trailer[k]));
    }
    lemma_trailer_phase(mr, trailer, f1, COMMIT_DELAY - 1);
    let m9 = spec_run(mr, trailer.take(COMMIT_DELAY - 1)).0;

    // split the whole run at the last trailer packet
    lemma_run_concat(m0, arrivals, trailer);
    assert(trailer =~= trailer.take(COMMIT_DELAY - 1).push(trailer[COMMIT_DELAY - 1]));
    lemma_run_concat(mr, trailer.take(COMMIT_DELAY - 1), seq![trailer[COMMIT_DELAY - 1]]);
    assert(trailer.take(COMMIT_DELAY - 1) + seq![trailer[COMMIT_DELAY - 1]] =~= trailer);
    lemma_run_snoc(mr, trailer.take(COMMIT_DELAY - 1), trailer[COMMIT_DELAY - 1]);

    // the last trailer packet commits and emits the filled frame
    let p = trailer[COMMIT_DELAY - 1];
    assert(spec_slot_index(m9, p) == spec_slot_index(mr, p));
    let st = spec_step(m9, p);
    assert(m9.other.count + 1 == COMMIT_DELAY);
    assert(st.1 is Some);
    let emitted = st.1->Some_0;
    assert(emitted.frame_id == m0.active.frame_id);
    assert(emitted.count == required);
    assert forall|s: int| 0 <= s < required implies spec_bit(m9.active.bitmap, s) by {
        assert(spec_slot_covered(perm, required, s));
        assert(exists|i: int| 0 <= i < required && perm[i] == s);
    }
    lemma_close_stats_all_set(
        m9.active.packets,
        m9.active.bitmap,
        m9.missing,
        crate::packet::spec_zero_packet(m9.profile),
        required,
    );
    assert(emitted.packets == m9.active.packets);
    assert forall|s: int| 0 <= s < required implies m9.active.packets[s] == place[s] by {
        assert(spec_slot_covered(perm, required, s));
        assert(exists|i: int| 0 <= i < required && perm[i] == s);
    }
    assert(emitted.packets =~= place);

    let r = spec_run(m0, arrivals + trailer);
    assert(r.1 =~= seq![emitted]);
}

/// Running the machine over a concatenation runs the two parts in turn and
/// concatenates the emitted frames.
pub proof fn lemma_run_concat(m: AggregatorModel, a: Seq<PacketV>, b: Seq<PacketV>)
    ensures
        ({
            let ra = spec_run(m, a);
            let rb = spec_run(ra.0, b);
            spec_run(m, a + b) == (rb.0, ra.1 + rb.1)
        }),
    decreases a.len(),
{
    let ra = spec_run(m, a);
    let rb = spec_run(ra.0, b);
    if a.len() == 0 {
        assert(a + b =~= b);
        assert(Seq::<EntryModel>::empty() + rb.1 =~= rb.1);
    } else {
        assert((a + b)[0] == a[0]);
        assert((a + b).drop_first() =~= a.drop_first() + b);
        let st0 = spec_step(m, a[0]);
        lemma_run_concat(st0.0, a.drop_first(), b);
        let ra2 = spec_run(st0.0, a.drop_first());
        match st0.1 {
            Some(e0) => {
                assert((seq![e0] + ra2.1) + rb.1 =~= seq![e0] + (ra2.1 + rb.1));
            },
            None => {},
        }
    }
}

/// Completeness of the reassembly: a stream of exactly one packet per slot
/// of a frame, in slot order, followed by a commit delay of next-frame
/// packets, emits exactly one complete frame: every slot filled with its
/// packet and every slot bit set.
pub proof fn lemma_aggregator_completeness(
    m0: AggregatorModel,
    place: Seq<PacketV>,
    trailer: Seq<PacketV>,
    f1: u16,
)
    requires
        1 <= m0.required() <= 128,
        m0.active.count == 0,
        m0.active.bitmap == 0,
        m0.active.packets.len() == m0.required(),
        m0.other.frame_id == m0.active.frame_id,
        f1 != m0.active.frame_id,
        place.len() == m0.required(),
        forall|s: int|
            0 <= s < m0.required() ==> (#[trigger] place[s]).spec_frame_id()
                == m0.active.frame_id,
        forall|s: int| 0 <= s < m0.required() ==> spec_slot_index(m0, #[trigger] place[s]) == s,
        trailer.len() == COMMIT_DELAY,
        forall|k: int|
            0 <= k < trailer.len() ==> (#[trigger] trailer[k]).spec_frame_id() == f1,
        forall|k: int|
            0 <= k < trailer.len() ==> 0 <= spec_slot_index(m0, #[trigger] trailer[k])
                < m0.required(),
    ensures
        ({
            let r = spec_run(m0, place + trailer);
            &&& r.1.len() == 1
            &&& r.1[0].frame_id == m0.active.frame_id
            &&& r.1[0].count == m0.required()
            &&& r.1[0].packets == place
            &&& forall|s: int|
                0 <= s < 128 ==> (spec_bit(r.1[0].bitmap, s) <==> s < m0.required())
        }),
{
    let required = m0.required();
    let perm = Seq::new(required as nat, |i: int| i);
    assert forall|s: int| 0 <= s < required implies #[trigger] spec_slot_covered(
        perm,
        required,
        s,
    ) by {
        assert(perm[s] == s);
    }
    lemma_reordering_tolerance(m0, place, perm, trailer, f1);
    assert(Seq::new(required as nat, |i: int| place[perm[i]]) =~= place);
}

} // verus!
