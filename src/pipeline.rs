use vstd::prelude::*;
use vstd::multiset::Multiset;
use crate::dtls::{AeadConfig, decrypt_gdp, encrypt_gdp, gcm_seal, TAG_LEN, MAX_PLAINTEXT};
use crate::gdp::{Gdp, GdpError, action_byte, dispatch_action, gdp_payload, be16, header_decodes, MAGIC_NUMBERS, GDP_HEADER_LEN};
use crate::packet::{Udp, MAX_UDP_PAYLOAD, frame_parses, frame_decodes, lengths_reconciled};
use crate::store::Store;
use crate::switch::{NodeConfig, RibOutcome, SwitchOutcome, rib_packet, rib_spec, switch_packet, switch_spec, switch_store_after};

verus! {

broadcast use vstd::multiset::group_multiset_axioms, vstd::seq_lib::group_seq_properties;

/// Number of dispatch groups: one per action byte.
pub const N_GROUPS: usize = 7;

/// The dispatch key of a packet: its action byte, unknown bytes as `Noop`.
pub open spec fn dispatch_key(g: Gdp) -> u8 {
    action_byte(dispatch_action(g.header.action))
}

/// The members of `batch` whose dispatch key is `k`, in batch order.
pub open spec fn group_of(batch: Seq<Gdp>, k: u8) -> Seq<Gdp> {
    batch.filter(|g: Gdp| dispatch_key(g) == k)
}

/// All groups together, as a multiset.
pub open spec fn union_of_groups(batch: Seq<Gdp>) -> Multiset<Gdp> {
    group_of(batch, 0).to_multiset().add(group_of(batch, 1).to_multiset()).add(
        group_of(batch, 2).to_multiset(),
    ).add(group_of(batch, 3).to_multiset()).add(group_of(batch, 4).to_multiset()).add(
        group_of(batch, 5).to_multiset(),
    ).add(group_of(batch, 6).to_multiset())
}

/// Every dispatch key is one of the seven group indices.
pub proof fn lemma_dispatch_key_bound(g: Gdp)
    ensures
        dispatch_key(g) < N_GROUPS,
{
}

/// Grouping partitions a batch: the groups together hold exactly the
/// packets of the batch, each as often as the batch does.
pub proof fn lemma_group_by_partition(batch: Seq<Gdp>)
    ensures
        union_of_groups(batch) == batch.to_multiset(),
    decreases batch.len(),
{
    if batch.len() == 0 {
        assert(union_of_groups(batch) =~= batch.to_multiset());
    } else {
        let s = batch.drop_last();
        let x = batch.last();
        assert(batch == s.push(x));
        lemma_group_by_partition(s);
        assert forall|k: u8| #[trigger] group_of(batch, k) == (if dispatch_key(x) == k {
            group_of(s, k).push(x)
        } else {
            group_of(s, k)
        }) by {
            s.lemma_filter_push(x, |g: Gdp| dispatch_key(g) == k);
        }
        s.to_multiset_ensures();
        assert forall|k: u8| #[trigger] group_of(s, k).push(x).to_multiset() == group_of(s, k).to_multiset().insert(x) by {
            group_of(s, k).to_multiset_ensures();
        }
        lemma_dispatch_key_bound(x);
        assert(union_of_groups(batch) =~= s.to_multiset().insert(x));
    }
}

/// Splits a batch by dispatch key: group `k` holds, in batch order, the
/// packets whose action byte dispatches to `k`.
pub fn group_by_action(batch: Vec<Gdp>) -> (r: Vec<Vec<Gdp>>)
    ensures
        r@.len() == N_GROUPS,
        forall|k: int| 0 <= k < N_GROUPS ==> #[trigger] r@[k]@ == group_of(batch@, k as u8),
{
    let mut r: Vec<Vec<Gdp>> = Vec::new();
    let mut k: usize = 0;
    while k < N_GROUPS
        invariant
            0 <= k <= N_GROUPS,
            r@.len() == k,
            forall|j: int| 0 <= j < k ==> #[trigger] r@[j]@.len() == 0,
        decreases N_GROUPS - k,
    {
        r.push(Vec::new());
        k = k + 1;
    }
    let ghost b = batch@;
    let mut rest = batch;
    let mut i: usize = 0;
    let n = rest.len();
    while i < n
        invariant
            0 <= i <= n,
            n == b.len(),
            rest@ == b.subrange(i as int, n as int),
            r@.len() == N_GROUPS,
            forall|k: int| 0 <= k < N_GROUPS ==> #[trigger] r@[k]@ == group_of(b.subrange(0, i as int), k as u8),
        decreases n - i,
    {
        let g = rest.remove(0);
        assert(g == b[i as int]);
        assert(rest@ =~= b.subrange(i + 1, n as int));
        let key = match g.action() {
            Some(a) => a.to_byte(),
            None => 0,
        };
        proof {
            assert(b.subrange(0, i + 1) == b.subrange(0, i as int).push(g));
            assert forall|k: u8| #[trigger] group_of(b.subrange(0, i + 1), k) == (if dispatch_key(g) == k {
                group_of(b.subrange(0, i as int), k).push(g)
            } else {
                group_of(b.subrange(0, i as int), k)
            }) by {
                b.subrange(0, i as int).lemma_filter_push(g, |p: Gdp| dispatch_key(p) == k);
            }
            lemma_dispatch_key_bound(g);
        }
        let ku = key as usize;
        r[ku].push(g);
        i = i + 1;
    }
    assert(b.subrange(0, n as int) == b);
    r
}

/// The order in which the switch handles a batch: the `Forward` group, then
/// the `RibReply` group, then the rest.
pub open spec fn switch_order(batch: Seq<Gdp>) -> Seq<Gdp> {
    group_of(batch, 5) + group_of(batch, 4) + group_of(batch, 0) + group_of(batch, 1) + group_of(batch, 2)
        + group_of(batch, 3) + group_of(batch, 6)
}

/// The order in which the RIB handles a batch: the `RibGet` group, then the rest.
pub open spec fn rib_order(batch: Seq<Gdp>) -> Seq<Gdp> {
    group_of(batch, 3) + group_of(batch, 0) + group_of(batch, 1) + group_of(batch, 2) + group_of(batch, 4)
        + group_of(batch, 5) + group_of(batch, 6)
}

/// The store after the switch has handled `pkts` in turn.
pub open spec fn store_after_all(store: Map<Seq<u8>, u32>, pkts: Seq<Gdp>) -> Map<Seq<u8>, u32>
    decreases pkts.len(),
{
    if pkts.len() == 0 {
        store
    } else {
        switch_store_after(store_after_all(store, pkts.drop_last()), pkts.last())
    }
}

/// `outs` are the switch's outcomes for `pkts` handled in turn from `store`.
pub open spec fn switch_run(store: Map<Seq<u8>, u32>, node: NodeConfig, pkts: Seq<Gdp>, outs: Seq<SwitchOutcome>) -> bool
    decreases pkts.len(),
{
    &&& pkts.len() == outs.len()
    &&& pkts.len() > 0 ==> {
        &&& switch_run(store, node, pkts.drop_last(), outs.drop_last())
        &&& switch_spec(
            store_after_all(store, pkts.drop_last()),
            store_after_all(store, pkts),
            node,
            pkts.last(),
            outs.last(),
        )
    }
}

/// Every packet of a batch is parsed: wf, so fit to be handled.
pub open spec fn all_wf(batch: Seq<Gdp>) -> bool {
    forall|i: int| 0 <= i < batch.len() ==> #[trigger] batch[i].wf()
}

proof fn lemma_group_wf(b: Seq<Gdp>, k: u8)
    requires
        all_wf(b),
    ensures
        all_wf(group_of(b, k)),
{
    let p = |g: Gdp| dispatch_key(g) == k;
    assert forall|i: int| 0 <= i < group_of(b, k).len() implies #[trigger] group_of(b, k)[i].wf() by {
        let x = group_of(b, k)[i];
        assert(b.filter(p).contains(x));
        b.lemma_filter_contains_rev(p, x);
    }
}

proof fn lemma_concat_wf(a: Seq<Gdp>, c: Seq<Gdp>)
    requires
        all_wf(a),
        all_wf(c),
    ensures
        all_wf(a + c),
{
    assert forall|i: int| 0 <= i < (a + c).len() implies #[trigger] (a + c)[i].wf() by {
        if i < a.len() {
            assert((a + c)[i] == a[i]);
        } else {
            assert((a + c)[i] == c[i - a.len()]);
        }
    }
}

/// Every packet of the switch order or the RIB order is one of the batch.
proof fn lemma_order_wf(b: Seq<Gdp>)
    requires
        all_wf(b),
    ensures
        all_wf(switch_order(b)),
        all_wf(rib_order(b)),
{
    lemma_group_wf(b, 0);
    lemma_group_wf(b, 1);
    lemma_group_wf(b, 2);
    lemma_group_wf(b, 3);
    lemma_group_wf(b, 4);
    lemma_group_wf(b, 5);
    lemma_group_wf(b, 6);
    lemma_concat_wf(group_of(b, 5), group_of(b, 4));
    lemma_concat_wf(group_of(b, 5) + group_of(b, 4), group_of(b, 0));
    lemma_concat_wf(group_of(b, 5) + group_of(b, 4) + group_of(b, 0), group_of(b, 1));
    lemma_concat_wf(group_of(b, 5) + group_of(b, 4) + group_of(b, 0) + group_of(b, 1), group_of(b, 2));
    lemma_concat_wf(group_of(b, 5) + group_of(b, 4) + group_of(b, 0) + group_of(b, 1) + group_of(b, 2), group_of(b, 3));
    lemma_concat_wf(group_of(b, 5) + group_of(b, 4) + group_of(b, 0) + group_of(b, 1) + group_of(b, 2) + group_of(b, 3), group_of(b, 6));
    lemma_concat_wf(group_of(b, 3), group_of(b, 0));
    lemma_concat_wf(group_of(b, 3) + group_of(b, 0), group_of(b, 1));
    lemma_concat_wf(group_of(b, 3) + group_of(b, 0) + group_of(b, 1), group_of(b, 2));
    lemma_concat_wf(group_of(b, 3) + group_of(b, 0) + group_of(b, 1) + group_of(b, 2), group_of(b, 4));
    lemma_concat_wf(group_of(b, 3) + group_of(b, 0) + group_of(b, 1) + group_of(b, 2) + group_of(b, 4), group_of(b, 5));
    lemma_concat_wf(group_of(b, 3) + group_of(b, 0) + group_of(b, 1) + group_of(b, 2) + group_of(b, 4) + group_of(b, 5), group_of(b, 6));
}

/// Moves the packets of group `k` to the end of `out`, leaving the group empty.
fn append_group(out: &mut Vec<Gdp>, groups: &mut Vec<Vec<Gdp>>, k: usize)
    requires
        k < old(groups)@.len(),
    ensures
        final(out)@ == old(out)@ + old(groups)@[k as int]@,
        final(groups)@.len() == old(groups)@.len(),
        forall|j: int| 0 <= j < old(groups)@.len() && j != k ==> #[trigger] final(groups)@[j] == old(groups)@[j],
{
    let mut part: Vec<Gdp> = Vec::new();
    std::mem::swap(&mut part, &mut groups[k]);
    out.append(&mut part);
}

/// The switch's handling of a parsed batch: grouped by action, the
/// `Forward` group first, then `RibReply`, then the rest; one outcome for each
/// packet, in that order. Replies are installed to lapse at `expires`.
pub fn switch_pipeline(store: &mut Store, node: &NodeConfig, batch: Vec<Gdp>, expires: Option<u64>) -> (r: Vec<SwitchOutcome>)
    requires
        old(store).wf(),
        all_wf(batch@),
    ensures
        final(store).wf(),
        switch_run(old(store)@, *node, switch_order(batch@), r@),
        final(store)@ == store_after_all(old(store)@, switch_order(batch@)),
{
    let ghost b = batch@;
    let mut groups = group_by_action(batch);
    let mut order: Vec<Gdp> = Vec::new();
    append_group(&mut order, &mut groups, 5);
    append_group(&mut order, &mut groups, 4);
    append_group(&mut order, &mut groups, 0);
    append_group(&mut order, &mut groups, 1);
    append_group(&mut order, &mut groups, 2);
    append_group(&mut order, &mut groups, 3);
    append_group(&mut order, &mut groups, 6);
    let ghost pkts = order@;
    assert(pkts =~= switch_order(b));
    proof {
        lemma_order_wf(b);
    }
    let n = order.len();
    let mut outs: Vec<SwitchOutcome> = Vec::new();
    let mut i: usize = 0;
    while i < n
        invariant
            0 <= i <= n,
            n == pkts.len(),
            all_wf(pkts),
            order@ == pkts.subrange(i as int, n as int),
            store.wf(),
            switch_run(old(store)@, *node, pkts.subrange(0, i as int), outs@),
            store@ == store_after_all(old(store)@, pkts.subrange(0, i as int)),
        decreases n - i,
    {
        let pkt = order.remove(0);
        assert(pkt == pkts[i as int]);
        assert(order@ =~= pkts.subrange(i + 1, n as int));
        let out = switch_packet(store, node, pkt, expires);
        let ghost outs_before = outs@;
        outs.push(out);
        proof {
            let next = pkts.subrange(0, i + 1);
            assert(next.drop_last() == pkts.subrange(0, i as int));
            assert(next.last() == pkt);
            assert(outs@.drop_last() == outs_before);
        }
        i = i + 1;
    }
    assert(pkts.subrange(0, n as int) == pkts);
    outs
}

/// The RIB's handling of a parsed batch: grouped by action, the `RibGet`
/// group first, then the rest; one outcome for each packet, in that order.
pub fn rib_pipeline(store: &Store, batch: Vec<Gdp>) -> (r: Vec<RibOutcome>)
    requires
        store.wf(),
        all_wf(batch@),
    ensures
        r@.len() == rib_order(batch@).len(),
        forall|i: int| 0 <= i < r@.len() ==> #[trigger] rib_spec(store@, rib_order(batch@)[i], r@[i]),
{
    let ghost b = batch@;
    let mut groups = group_by_action(batch);
    let mut order: Vec<Gdp> = Vec::new();
    append_group(&mut order, &mut groups, 3);
    append_group(&mut order, &mut groups, 0);
    append_group(&mut order, &mut groups, 1);
    append_group(&mut order, &mut groups, 2);
    append_group(&mut order, &mut groups, 4);
    append_group(&mut order, &mut groups, 5);
    append_group(&mut order, &mut groups, 6);
    let ghost pkts = order@;
    assert(pkts =~= rib_order(b));
    proof {
        lemma_order_wf(b);
    }
    let mut outs: Vec<RibOutcome> = Vec::new();
    let mut i: usize = 0;
    while i < order.len()
        invariant
            0 <= i <= order@.len(),
            order@ == pkts,
            all_wf(pkts),
            store.wf(),
            outs@.len() == i,
            forall|j: int| 0 <= j < i ==> #[trigger] rib_spec(store@, pkts[j], outs@[j]),
        decreases order@.len() - i,
    {
        let out = rib_packet(store, &order[i]);
        outs.push(out);
        i = i + 1;
    }
    outs
}

/// The UDP payload carried by a frame that parses.
pub open spec fn frame_payload(b: Seq<u8>) -> Seq<u8> {
    b.subrange(42, 34 + be16(b[38], b[39]))
}

/// `p` starts with a GDP header whose data fits in `p`, and the whole
/// stays within what one UDP datagram can carry.
pub open spec fn gdp_parses(p: Seq<u8>) -> bool {
    &&& p.len() >= GDP_HEADER_LEN
    &&& be16(p[0], p[1]) == MAGIC_NUMBERS
    &&& be16(p[100], p[101]) + GDP_HEADER_LEN <= p.len()
    &&& p.len() <= MAX_UDP_PAYLOAD
}

/// Reads a received frame: Ethernet, IPv4 and UDP layers, then the AEAD
/// wrapper, then the GDP header. A frame that is not UDP in IPv4, or whose
/// plaintext holds no GDP packet, fails with `ParseError`; one whose payload
/// does not authenticate, with `AuthFailed`.
pub fn open_frame(cfg: &AeadConfig, frame: &[u8]) -> (r: Result<Gdp, GdpError>)
    ensures
        !frame_parses(frame@) ==> r == Err::<Gdp, GdpError>(GdpError::ParseError),
        frame_parses(frame@) && (forall|p: Seq<u8>|
            p.len() <= MAX_PLAINTEXT ==> #[trigger] gcm_seal(cfg.key@, cfg.nonce@, p)
                != frame_payload(frame@)) ==> r == Err::<Gdp, GdpError>(GdpError::AuthFailed),
        forall|p: Seq<u8>|
            p.len() <= MAX_PLAINTEXT && #[trigger] gcm_seal(cfg.key@, cfg.nonce@, p)
                == frame_payload(frame@) && frame_parses(frame@) ==> (gdp_parses(p) <==> r is Ok),
        forall|p: Seq<u8>|
            p.len() <= MAX_PLAINTEXT && #[trigger] gcm_seal(cfg.key@, cfg.nonce@, p)
                == frame_payload(frame@) && frame_parses(frame@) && !gdp_parses(p) ==> r == Err::<
                Gdp,
                GdpError,
            >(GdpError::ParseError),
        r matches Ok(g) ==> {
            &&& g.wf()
            &&& frame_parses(frame@)
            &&& gcm_seal(cfg.key@, cfg.nonce@, gdp_payload(g)) == frame_payload(frame@)
            &&& header_decodes(gdp_payload(g).subrange(0, 102), g.header)
            &&& frame_decodes_headers(frame@, g.envelope)
        },
        r matches Err(e) ==> e == GdpError::ParseError || e == GdpError::AuthFailed,
{
    let udp = match Udp::parse_frame(frame) {
        Some(u) => u,
        None => {
            return Err(GdpError::ParseError);
        },
    };
    let plain = match decrypt_gdp(cfg, udp) {
        Ok(u) => u,
        Err(e) => {
            return Err(e);
        },
    };
    if plain.payload.len() > MAX_UDP_PAYLOAD {
        return Err(GdpError::ParseError);
    }
    match Gdp::try_parse(plain) {
        Ok(g) => Ok(g),
        Err(_) => Err(GdpError::ParseError),
    }
}

/// The Ethernet, IPv4 and UDP headers of `u` are those of the frame `b`.
pub open spec fn frame_decodes_headers(b: Seq<u8>, u: Udp) -> bool {
    exists|v: Udp| #[trigger] frame_decodes(b, v) && v.eth == u.eth && v.ipv4 == u.ipv4 && v.udp == u.udp
}

/// Prepares a packet for sending: the GDP header goes back into the UDP
/// payload, the payload is encrypted, and the lengths and IPv4 checksum are
/// reconciled. Fails with `BufferShort` only where the ciphertext would not
/// fit in one datagram.
pub fn seal_packet(cfg: &AeadConfig, g: Gdp) -> (r: Result<Udp, GdpError>)
    requires
        g.wf(),
    ensures
        r is Ok <==> gdp_payload(g).len() + TAG_LEN <= MAX_UDP_PAYLOAD,
        r matches Ok(u) ==> {
            &&& u.payload@ == gcm_seal(cfg.key@, cfg.nonce@, gdp_payload(g))
            &&& lengths_reconciled(u)
            &&& u.eth == g.envelope.eth
            &&& u.udp.src_port == g.envelope.udp.src_port
            &&& u.udp.dst_port == g.envelope.udp.dst_port
            &&& u.ipv4.src == g.envelope.ipv4.src
            &&& u.ipv4.dst == g.envelope.ipv4.dst
            &&& u.ipv4.ttl == g.envelope.ipv4.ttl
            &&& u.ipv4.protocol == g.envelope.ipv4.protocol
        },
        r matches Err(e) ==> e == GdpError::BufferShort,
{
    let plain = g.deparse();
    if plain.payload.len() + TAG_LEN > MAX_UDP_PAYLOAD {
        return Err(GdpError::BufferShort);
    }
    let mut sealed = match encrypt_gdp(cfg, plain) {
        Ok(u) => u,
        Err(e) => {
            return Err(e);
        },
    };
    sealed.reconcile_all();
    Ok(sealed)
}

} // verus!
