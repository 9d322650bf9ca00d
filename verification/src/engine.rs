//! The agent turn engine: a bounded tool-use loop, driven as a state
//! machine. The caller performs the model requests and tool executions and
//! feeds the results back; every decision the loop takes is made here.

use vstd::prelude::*;

use crate::items::{
    calls_of, calls_view, item_clone, items_clone, items_view, lemma_items_view, outputs_view,
    parts_view, response_text, ContentPart, ContentPartV, Item, ItemV, OutputItem, OutputItemV,
    Response, ResponseStatus, Role, Usage,
};
use crate::text::{chars_to_string, push_str, spec_dec, str_chars, u64_chars};

verus! {

// ---------------------------------------------------------------------------
// History bookkeeping
// ---------------------------------------------------------------------------
/// The text of a message output item: its output-text parts, joined.
pub open spec fn msg_text(parts: Seq<ContentPartV>) -> Seq<char>
    decreases parts.len(),
{
    if parts.len() == 0 {
        Seq::empty()
    } else {
        (match parts[0] {
            ContentPartV::OutputText(t) => t,
            _ => Seq::empty(),
        }) + msg_text(parts.skip(1))
    }
}

/// The history items recorded for a response's output: its function calls
/// and its nonempty messages. Reasoning and unknown items are not persisted;
/// they are carried by response chaining instead.
pub open spec fn recorded_items(out: Seq<OutputItemV>) -> Seq<ItemV>
    decreases out.len(),
{
    if out.len() == 0 {
        Seq::empty()
    } else {
        recorded_items(out.take(out.len() - 1)) + (match out[out.len() - 1] {
            OutputItemV::FunctionCall { id, call_id, name, arguments } => seq![
                ItemV::FunctionCall { id, call_id, name, arguments },
            ],
            OutputItemV::Message { role, content, .. } => {
                if msg_text(content).len() > 0 {
                    seq![ItemV::Message { role, content: msg_text(content) }]
                } else {
                    Seq::empty()
                }
            },
            _ => Seq::empty(),
        })
    }
}

fn message_text(content: &Vec<ContentPart>) -> (r: Vec<char>)
    ensures
        r@ == msg_text(parts_view(content@)),
{
    proof {
        crate::items::lemma_parts_view(content@);
    }
    let ghost pv = parts_view(content@);
    assert(pv.skip(0) =~= pv);
    let mut acc: Vec<char> = Vec::new();
    let mut j: usize = 0;
    while j < content.len()
        invariant
            0 <= j <= content@.len(),
            pv == parts_view(content@),
            pv.len() == content@.len(),
            forall|i: int| 0 <= i < content@.len() ==> pv[i] == content@[i]@,
            acc@ + msg_text(pv.skip(j as int)) == msg_text(pv),
        decreases content@.len() - j,
    {
        let ghost acc0 = acc@;
        match &content[j] {
            ContentPart::OutputText { text } => {
                push_str(&mut acc, text.as_str());
            },
            _ => {},
        }
        proof {
            assert(pv.skip(j as int).skip(1) =~= pv.skip(j + 1));
            assert(pv.skip(j as int)[0] == pv[j as int]);
            assert(acc@ + msg_text(pv.skip(j + 1)) =~= acc0 + msg_text(pv.skip(j as int)));
        }
        j += 1;
    }
    proof {
        assert(pv.skip(content@.len() as int).len() == 0);
        assert(acc@ =~= acc@ + msg_text(pv.skip(content@.len() as int)));
    }
    acc
}

/// Append the recorded form of a response's output items to the history:
/// its function calls and its nonempty messages, never reasoning or unknown
/// items.
pub fn append_output_to_history(history: &mut Vec<Item>, output: &Vec<OutputItem>)
    ensures
        items_view(final(history)@) == items_view(old(history)@) + recorded_items(
            outputs_view(output@),
        ),
{
    proof {
        crate::items::lemma_outputs_view(output@);
        lemma_items_view(old(history)@);
    }
    let ghost ov = outputs_view(output@);
    assert(ov.take(0) =~= Seq::<OutputItemV>::empty());
    assert(items_view(history@) =~= items_view(history@) + recorded_items(ov.take(0)));
    let mut k: usize = 0;
    while k < output.len()
        invariant
            0 <= k <= output@.len(),
            ov == outputs_view(output@),
            ov.len() == output@.len(),
            forall|i: int| 0 <= i < output@.len() ==> ov[i] == output@[i]@,
            items_view(history@) == items_view(old(history)@) + recorded_items(
                ov.take(k as int),
            ),
        decreases output@.len() - k,
    {
        proof {
            lemma_items_view(history@);
        }
        let ghost h0 = items_view(history@);
        match &output[k] {
            OutputItem::FunctionCall { id, call_id, name, arguments } => {
                history.push(
                    Item::FunctionCall {
                        id: id.clone(),
                        call_id: call_id.clone(),
                        name: name.clone(),
                        arguments: arguments.clone(),
                    },
                );
                proof {
                    lemma_items_view(history@);
                }
            },
            OutputItem::Message { role, content, .. } => {
                let text = message_text(content);
                if text.len() > 0 {
                    history.push(Item::Message { role: *role, content: chars_to_string(&text) });
                }
                proof {
                    lemma_items_view(history@);
                }
            },
            _ => {},
        }
        proof {
            lemma_items_view(history@);
            assert(ov.take(k + 1).take(k as int) =~= ov.take(k as int));
            assert(ov.take(k + 1)[k as int] == ov[k as int]);
            match ov[k as int] {
                OutputItemV::FunctionCall { id, call_id, name, arguments } => {
                    assert(recorded_items(ov.take(k + 1)) =~~= recorded_items(ov.take(k as int))
                        + seq![ItemV::FunctionCall { id, call_id, name, arguments }]);
                    assert(items_view(history@) =~~= h0 + seq![
                        ItemV::FunctionCall { id, call_id, name, arguments },
                    ]);
                },
                OutputItemV::Message { role, content, .. } => {
                    if msg_text(content).len() > 0 {
                        assert(recorded_items(ov.take(k + 1)) =~~= recorded_items(
                            ov.take(k as int),
                        ) + seq![ItemV::Message { role, content: msg_text(content) }]);
                        assert(items_view(history@) =~~= h0 + seq![
                            ItemV::Message { role, content: msg_text(content) },
                        ]);
                    } else {
                        assert(recorded_items(ov.take(k + 1)) =~~= recorded_items(
                            ov.take(k as int),
                        ));
                        assert(items_view(history@) == h0);
                    }
                },
                _ => {
                    assert(recorded_items(ov.take(k + 1)) =~~= recorded_items(ov.take(k as int)));
                },
            }
            assert(items_view(history@) =~~= items_view(old(history)@) + recorded_items(
                ov.take(k + 1),
            ));
        }
        k += 1;
    }
    proof {
        assert(ov.take(output@.len() as int) =~= ov);
    }
}

/// History with stray opaque items removed.
pub open spec fn stripped(s: Seq<ItemV>) -> Seq<ItemV>
    decreases s.len(),
{
    if s.len() == 0 {
        s
    } else {
        stripped(s.take(s.len() - 1)) + (match s[s.len() - 1] {
            ItemV::Reasoning(_) => Seq::empty(),
            ItemV::Other(_) => Seq::empty(),
            it => seq![it],
        })
    }
}

/// Remove any stray reasoning or unknown items from the history. They are
/// normally absent already; this catches items loaded from old transcripts.
pub fn strip_reasoning(history: &mut Vec<Item>)
    ensures
        items_view(final(history)@) == stripped(items_view(old(history)@)),
{
    proof {
        lemma_items_view(history@);
    }
    let ghost hv = items_view(old(history)@);
    let mut out: Vec<Item> = Vec::new();
    assert(hv.take(0) =~= Seq::<ItemV>::empty());
    let mut k: usize = 0;
    while k < history.len()
        invariant
            0 <= k <= history@.len(),
            history@ == old(history)@,
            hv == items_view(history@),
            hv.len() == history@.len(),
            forall|i: int| 0 <= i < history@.len() ==> hv[i] == history@[i]@,
            items_view(out@) == stripped(hv.take(k as int)),
        decreases history@.len() - k,
    {
        proof {
            lemma_items_view(out@);
        }
        let ghost o0 = items_view(out@);
        let keep = match &history[k] {
            Item::Reasoning(_) => false,
            Item::Other(_) => false,
            _ => true,
        };
        if keep {
            let c = item_clone(&history[k]);
            out.push(c);
        }
        proof {
            lemma_items_view(out@);
            assert(hv.take(k + 1).take(k as int) =~= hv.take(k as int));
            assert(hv.take(k + 1)[k as int] == hv[k as int]);
            if keep {
                assert(items_view(out@) =~~= o0 + seq![hv[k as int]]);
                assert(stripped(hv.take(k + 1)) =~~= stripped(hv.take(k as int)) + seq![
                    hv[k as int],
                ]);
            } else {
                assert(items_view(out@) == o0);
                assert(stripped(hv.take(k + 1)) =~~= stripped(hv.take(k as int)));
            }
            assert(items_view(out@) =~~= stripped(hv.take(k + 1)));
        }
        k += 1;
    }
    proof {
        assert(hv.take(history@.len() as int) =~= hv);
    }
    *history = out;
}

/// The call id of a function-call item, if it is one.
pub open spec fn call_id_of(it: ItemV) -> Option<Seq<char>> {
    match it {
        ItemV::FunctionCall { call_id, .. } => Some(call_id),
        _ => None,
    }
}

/// True when the history holds a function call with this call id.
pub open spec fn has_call(s: Seq<ItemV>, id: Seq<char>) -> bool {
    exists|i: int| 0 <= i < s.len() && call_id_of(#[trigger] s[i]) == Some(id)
}

/// True when an item survives trimming against the survivor set `c`: a
/// function-call output whose call is not in `c` is dropped, everything
/// else stays.
pub open spec fn kept_by(c: Seq<ItemV>, it: ItemV) -> bool {
    match it {
        ItemV::FunctionCallOutput { call_id, .. } => has_call(c, call_id),
        _ => true,
    }
}

/// The items of `s` kept against the survivor set `c`, in order.
pub open spec fn drop_orphans_in(c: Seq<ItemV>, s: Seq<ItemV>) -> Seq<ItemV>
    decreases s.len(),
{
    if s.len() == 0 {
        s
    } else {
        drop_orphans_in(c, s.take(s.len() - 1)) + (if kept_by(c, s[s.len() - 1]) {
            seq![s[s.len() - 1]]
        } else {
            Seq::empty()
        })
    }
}

/// The trimmed history: drop the oldest items beyond `max`, then drop any
/// function-call output whose call did not survive, so a call and its
/// output are never split across the boundary.
pub open spec fn trimmed(h: Seq<ItemV>, max: nat) -> Seq<ItemV> {
    let ex = if h.len() > max {
        h.len() - max
    } else {
        0
    };
    let t = h.skip(ex as int);
    drop_orphans_in(t, t)
}

/// Dropping nothing: when every item is kept against the survivor set, the
/// orphan filter is the identity.
proof fn lemma_drop_orphans_id(c: Seq<ItemV>, s: Seq<ItemV>)
    requires
        forall|i: int| 0 <= i < s.len() ==> kept_by(c, #[trigger] s[i]),
    ensures
        drop_orphans_in(c, s) == s,
    decreases s.len(),
{
    if s.len() > 0 {
        assert forall|i: int| 0 <= i < s.take(s.len() - 1).len() implies kept_by(
            c,
            #[trigger] s.take(s.len() - 1)[i],
        ) by {
            assert(s.take(s.len() - 1)[i] == s[i]);
        }
        lemma_drop_orphans_id(c, s.take(s.len() - 1));
        assert(drop_orphans_in(c, s) =~= s);
    }
}

/// Trimming a history one over the bound drops exactly the oldest item, two
/// over drops the two oldest, and so on, as long as the cut leaves no
/// function-call output behind without its call.
proof fn lemma_stripped_clean(s: Seq<ItemV>)
    ensures
        forall|i: int|
            0 <= i < stripped(s).len() ==> !((#[trigger] stripped(s)[i]) is Reasoning) && !(
            stripped(s)[i] is Other),
    decreases s.len(),
{
    if s.len() > 0 {
        lemma_stripped_clean(s.take(s.len() - 1));
        assert forall|i: int| 0 <= i < stripped(s).len() implies !((#[trigger] stripped(s)[i])
            is Reasoning) && !(stripped(s)[i] is Other) by {
            let pre = stripped(s.take(s.len() - 1));
            if i < pre.len() {
                assert(stripped(s)[i] == pre[i]);
            }
        }
    }
}

proof fn lemma_drop_orphans_sub(c: Seq<ItemV>, s: Seq<ItemV>)
    ensures
        drop_orphans_in(c, s).len() <= s.len(),
        forall|i: int|
            0 <= i < drop_orphans_in(c, s).len() ==> exists|j: int|
                0 <= j < s.len() && (#[trigger] drop_orphans_in(c, s)[i]) == #[trigger] s[j],
    decreases s.len(),
{
    if s.len() > 0 {
        lemma_drop_orphans_sub(c, s.take(s.len() - 1));
        assert forall|i: int| 0 <= i < drop_orphans_in(c, s).len() implies exists|j: int|
            0 <= j < s.len() && (#[trigger] drop_orphans_in(c, s)[i]) == #[trigger] s[j] by {
            let d1 = drop_orphans_in(c, s.take(s.len() - 1));
            if i < d1.len() {
                let j = choose|j: int|
                    0 <= j < s.take(s.len() - 1).len() && d1[i] == #[trigger] s.take(
                        s.len() - 1,
                    )[j];
                assert(s.take(s.len() - 1)[j] == s[j]);
                assert(drop_orphans_in(c, s)[i] == s[j]);
            } else {
                assert(drop_orphans_in(c, s)[i] == s[s.len() - 1]);
            }
        }
    }
}

/// A finished turn's returned history carries reasoning continuity only in
/// the response id: after stripping and trimming it holds no reasoning item
/// and no opaque item, and its length never exceeds the configured bound,
/// so the transcript persisted from it has no reasoning line.
pub proof fn lemma_finished_history_clean(h: Seq<ItemV>, max: nat)
    ensures
        trimmed(stripped(h), max).len() <= max,
        forall|i: int|
            0 <= i < trimmed(stripped(h), max).len() ==> !((#[trigger] trimmed(stripped(h), max)[i])
                is Reasoning) && !(trimmed(stripped(h), max)[i] is Other),
{
    let sh = stripped(h);
    lemma_stripped_clean(h);
    let ex: int = if sh.len() > max {
        sh.len() - max
    } else {
        0
    };
    let t = sh.skip(ex);
    lemma_drop_orphans_sub(t, t);
    assert forall|i: int| 0 <= i < trimmed(sh, max).len() implies !((#[trigger] trimmed(sh, max)[i])
        is Reasoning) && !(trimmed(sh, max)[i] is Other) by {
        let j = choose|j: int| 0 <= j < t.len() && trimmed(sh, max)[i] == #[trigger] t[j];
        assert(t[j] == sh[ex + j]);
    }
}

pub proof fn lemma_trim_exact(h: Seq<ItemV>, max: nat)
    requires
        h.len() > max,
        forall|i: int|
            0 <= i < h.skip(h.len() - max).len() ==> kept_by(
                h.skip(h.len() - max),
                #[trigger] h.skip(h.len() - max)[i],
            ),
    ensures
        trimmed(h, max) == h.skip(h.len() - max),
        trimmed(h, max).len() == max,
{
    lemma_drop_orphans_id(h.skip(h.len() - max), h.skip(h.len() - max));
}

fn contains_str(ids: &Vec<String>, s: &String) -> (r: bool)
    ensures
        r == exists|i: int| 0 <= i < ids@.len() && (#[trigger] ids@[i])@ == s@,
{
    let sc = str_chars(s.as_str());
    let mut k: usize = 0;
    while k < ids.len()
        invariant
            0 <= k <= ids@.len(),
            sc@ == s@,
            forall|i: int| 0 <= i < k ==> (#[trigger] ids@[i])@ != s@,
        decreases ids@.len() - k,
    {
        let ic = str_chars(ids[k].as_str());
        if crate::text::chars_eq(&ic, &sc) {
            return true;
        }
        k += 1;
    }
    false
}

/// Trim the history to at most `max` items, dropping oldest first and never
/// splitting a function call from its output.
#[verifier::loop_isolation(false)]
#[verifier::rlimit(50)]
pub fn trim_history(history: &mut Vec<Item>, max: usize)
    ensures
        items_view(final(history)@) == trimmed(items_view(old(history)@), max as nat),
{
    let excess: usize = if history.len() > max {
        history.len() - max
    } else {
        0
    };
    let tail = history.split_off(excess);
    proof {
        lemma_items_view(old(history)@);
        lemma_items_view(tail@);
        assert(tail@ =~= old(history)@.skip(excess as int));
        assert(items_view(tail@) =~~= items_view(old(history)@).skip(excess as int));
    }
    let ghost tv = items_view(tail@);
    // Collect the call ids that survive the cut.
    let mut ids: Vec<String> = Vec::new();
    let mut k: usize = 0;
    while k < tail.len()
        invariant
            0 <= k <= tail@.len(),
            forall|i: int|
                0 <= i < ids@.len() ==> has_call(tv, (#[trigger] ids@[i])@),
            forall|j: int|
                (0 <= j < k && call_id_of(#[trigger] tv[j]) is Some) ==> exists|i: int|
                    0 <= i < ids@.len() && Some((#[trigger] ids@[i])@) == call_id_of(tv[j]),
        decreases tail@.len() - k,
    {
        let ghost ids0 = ids@;
        match &tail[k] {
            Item::FunctionCall { call_id, .. } => {
                ids.push(call_id.clone());
                assert(call_id_of(tv[k as int]) == Some(call_id@));
                assert(has_call(tv, call_id@));
            },
            _ => {},
        }
        proof {
            assert forall|i: int| 0 <= i < ids@.len() implies has_call(
                tv,
                (#[trigger] ids@[i])@,
            ) by {
                if i < ids0.len() {
                    assert(ids@[i] == ids0[i]);
                }
            }
            assert forall|j: int| (0 <= j < k + 1 && call_id_of(#[trigger] tv[j]) is Some)
                implies exists|i: int|
                0 <= i < ids@.len() && Some((#[trigger] ids@[i])@) == call_id_of(tv[j]) by {
                if j < k {
                    let wi = choose|i: int|
                        0 <= i < ids0.len() && Some((#[trigger] ids0[i])@) == call_id_of(tv[j]);
                    assert(ids@[wi] == ids0[wi]);
                    assert(0 <= wi < ids@.len() && Some(ids@[wi]@) == call_id_of(tv[j]));
                } else {
                    assert(Some(ids@[ids@.len() - 1]@) == call_id_of(tv[k as int]));
                }
            }
        }
        k += 1;
    }
    // Keep everything except outputs whose call fell before the cut.
    let mut out: Vec<Item> = Vec::new();
    assert(tv.take(0) =~= Seq::<ItemV>::empty());
    let mut m: usize = 0;
    while m < tail.len()
        invariant
            0 <= m <= tail@.len(),
            forall|i: int|
                0 <= i < ids@.len() ==> has_call(tv, (#[trigger] ids@[i])@),
            forall|j: int|
                (0 <= j < tail@.len() && call_id_of(#[trigger] tv[j]) is Some) ==> exists|i: int|
                    0 <= i < ids@.len() && Some((#[trigger] ids@[i])@) == call_id_of(tv[j]),
            items_view(out@) == drop_orphans_in(tv, tv.take(m as int)),
        decreases tail@.len() - m,
    {
        proof {
            lemma_items_view(out@);
        }
        let ghost o0 = items_view(out@);
        let keep = match &tail[m] {
            Item::FunctionCallOutput { call_id, .. } => {
                let present = contains_str(&ids, call_id);
                proof {
                    if present {
                    } else {
                        if has_call(tv, call_id@) {
                            let w = choose|i: int|
                                0 <= i < tv.len() && call_id_of(#[trigger] tv[i]) == Some(
                                    call_id@,
                                );
                            assert(exists|i: int|
                                0 <= i < ids@.len() && (#[trigger] ids@[i])@ == call_id@);
                        }
                    }
                }
                present
            },
            _ => true,
        };
        if keep {
            let c = item_clone(&tail[m]);
            out.push(c);
        }
        proof {
            lemma_items_view(out@);
            assert(tv.take(m + 1).take(m as int) =~= tv.take(m as int));
            assert(tv.take(m + 1)[m as int] == tv[m as int]);
            if keep {
                assert(items_view(out@) =~~= o0 + seq![tv[m as int]]);
                assert(kept_by(tv, tv[m as int]));
                assert(drop_orphans_in(tv, tv.take(m + 1)) =~~= drop_orphans_in(
                    tv,
                    tv.take(m as int),
                ) + seq![tv[m as int]]);
            } else {
                assert(!kept_by(tv, tv[m as int]));
                assert(drop_orphans_in(tv, tv.take(m + 1)) =~~= drop_orphans_in(
                    tv,
                    tv.take(m as int),
                ));
            }
            assert(items_view(out@) =~~= drop_orphans_in(tv, tv.take(m + 1)));
        }
        m += 1;
    }
    proof {
        assert(tv.take(tail@.len() as int) =~= tv);
    }
    *history = out;
}

// ---------------------------------------------------------------------------
// The pairing invariant
// ---------------------------------------------------------------------------
/// True when an item is an assistant message.
pub open spec fn is_assistant(it: ItemV) -> bool {
    it matches ItemV::Message { role: Role::Assistant, .. }
}

/// The call id of a function-call output, if the item is one.
pub open spec fn output_id_of(it: ItemV) -> Option<Seq<char>> {
    match it {
        ItemV::FunctionCallOutput { call_id, .. } => Some(call_id),
        _ => None,
    }
}

/// The output at `j` closes the call at `i`: a later matching output with no
/// assistant message in between.
pub open spec fn closes(h: Seq<ItemV>, i: int, j: int) -> bool {
    &&& 0 <= i < j < h.len()
    &&& output_id_of(h[j]) == call_id_of(h[i])
    &&& call_id_of(h[i]) is Some
    &&& forall|m: int| i < m < j ==> !is_assistant(#[trigger] h[m])
}

/// Every function call in the history is followed by a matching output
/// before the next assistant message.
pub open spec fn calls_closed(h: Seq<ItemV>) -> bool {
    forall|i: int|
        (0 <= i < h.len() && call_id_of(#[trigger] h[i]) is Some) ==> exists|j: int| closes(h, i, j)
}

/// Extending a closed history with items that are not function calls keeps
/// it closed.
pub proof fn lemma_closed_extend(h: Seq<ItemV>, ext: Seq<ItemV>)
    requires
        calls_closed(h),
        forall|k: int| 0 <= k < ext.len() ==> call_id_of(#[trigger] ext[k]) is None,
    ensures
        calls_closed(h + ext),
{
    let g = h + ext;
    assert forall|i: int| (0 <= i < g.len() && call_id_of(#[trigger] g[i]) is Some) implies exists|
        j: int,
    | closes(g, i, j) by {
        if i < h.len() {
            let j = choose|j: int| closes(h, i, j);
            assert(g[j] == h[j]);
            assert(g[i] == h[i]);
            assert forall|m: int| i < m < j implies !is_assistant(#[trigger] g[m]) by {
                assert(g[m] == h[m]);
            }
            assert(closes(g, i, j));
        } else {
            assert(g[i] == ext[i - h.len()]);
        }
    }
}

/// A block of function calls followed, in order, by their matching outputs.
pub open spec fn call_block(calls: Seq<ItemV>, outs: Seq<ItemV>) -> bool {
    &&& calls.len() == outs.len()
    &&& forall|k: int| 0 <= k < calls.len() ==> call_id_of(#[trigger] calls[k]) is Some
    &&& forall|k: int|
        0 <= k < outs.len() ==> output_id_of(#[trigger] outs[k]) == call_id_of(calls[k])
            && output_id_of(outs[k]) is Some
}

/// Appending a block of calls and then their outputs to a closed history
/// keeps every call answered before the next assistant message.
pub proof fn lemma_closed_call_block(h: Seq<ItemV>, calls: Seq<ItemV>, outs: Seq<ItemV>)
    requires
        calls_closed(h),
        call_block(calls, outs),
    ensures
        calls_closed(h + calls + outs),
{
    let g = h + calls + outs;
    assert forall|i: int| (0 <= i < g.len() && call_id_of(#[trigger] g[i]) is Some) implies exists|
        j: int,
    | closes(g, i, j) by {
        if i < h.len() {
            let j = choose|j: int| closes(h, i, j);
            assert(g[j] == h[j]);
            assert(g[i] == h[i]);
            assert forall|m: int| i < m < j implies !is_assistant(#[trigger] g[m]) by {
                assert(g[m] == h[m]);
            }
            assert(closes(g, i, j));
        } else if i < h.len() + calls.len() {
            let k = i - h.len();
            let j = h.len() + calls.len() + k;
            assert(g[j] == outs[k]);
            assert(g[i] == calls[k]);
            assert forall|m: int| i < m < j implies !is_assistant(#[trigger] g[m]) by {
                if m < h.len() + calls.len() {
                    assert(g[m] == calls[m - h.len()]);
                    assert(call_id_of(calls[m - h.len()]) is Some);
                } else {
                    assert(g[m] == outs[m - h.len() - calls.len()]);
                    assert(output_id_of(outs[m - h.len() - calls.len()]) is Some);
                }
            }
            assert(closes(g, i, j));
        } else {
            assert(g[i] == outs[i - h.len() - calls.len()]);
        }
    }
}

// ---------------------------------------------------------------------------
// The turn state machine
// ---------------------------------------------------------------------------
/// The nonempty message items recorded for a response's output.
pub open spec fn msgs_of(out: Seq<OutputItemV>) -> Seq<ItemV>
    decreases out.len(),
{
    if out.len() == 0 {
        Seq::empty()
    } else {
        msgs_of(out.take(out.len() - 1)) + (match out[out.len() - 1] {
            OutputItemV::Message { role, content, .. } => {
                if msg_text(content).len() > 0 {
                    seq![ItemV::Message { role, content: msg_text(content) }]
                } else {
                    Seq::empty()
                }
            },
            _ => Seq::empty(),
        })
    }
}

/// The function-call items of a response's output, in order.
pub open spec fn call_items(out: Seq<OutputItemV>) -> Seq<ItemV>
    decreases out.len(),
{
    if out.len() == 0 {
        Seq::empty()
    } else {
        call_items(out.take(out.len() - 1)) + (match out[out.len() - 1] {
            OutputItemV::FunctionCall { id, call_id, name, arguments } => seq![
                ItemV::FunctionCall { id, call_id, name, arguments },
            ],
            _ => Seq::empty(),
        })
    }
}

/// The call items line up one to one with the response's call triples.
pub proof fn lemma_call_items(out: Seq<OutputItemV>)
    ensures
        call_items(out).len() == calls_of(out).len(),
        forall|k: int|
            0 <= k < calls_of(out).len() ==> call_id_of(#[trigger] call_items(out)[k]) == Some(
                calls_of(out)[k].0,
            ),
    decreases out.len(),
{
    if out.len() > 0 {
        lemma_call_items(out.take(out.len() - 1));
    }
}

/// The recorded items of a call-free response contain no function calls.
proof fn lemma_recorded_no_calls(out: Seq<OutputItemV>)
    requires
        calls_of(out).len() == 0,
    ensures
        forall|k: int|
            0 <= k < recorded_items(out).len() ==> call_id_of(
                #[trigger] recorded_items(out)[k],
            ) is None,
    decreases out.len(),
{
    if out.len() > 0 {
        lemma_recorded_no_calls(out.take(out.len() - 1));
    }
}

/// The message items of any response contain no function calls.
proof fn lemma_msgs_no_calls(out: Seq<OutputItemV>)
    ensures
        forall|k: int|
            0 <= k < msgs_of(out).len() ==> call_id_of(#[trigger] msgs_of(out)[k]) is None,
    decreases out.len(),
{
    if out.len() > 0 {
        lemma_msgs_no_calls(out.take(out.len() - 1));
    }
}

/// The result of a completed turn.
pub struct TurnResult {
    pub text: String,
    pub history: Vec<Item>,
    pub usage: Option<Usage>,
    /// The last response id; passed back on the next turn so the provider
    /// chains its reasoning items.
    pub last_response_id: Option<String>,
}

/// What the engine asks the driver to do next.
pub enum TurnOutcome {
    /// The provider reported failure; the turn is aborted.
    Failed { message: String },
    /// The turn is complete.
    Finished { result: TurnResult },
    /// Execute these calls, in order, and hand their outputs back.
    Continue { calls: Vec<(String, String, String)> },
}

/// One agent turn in progress. The driver alternates `next_input` /
/// `on_response`, executing tools between `Continue` and `record_outputs`.
pub struct TurnState {
    pub history: Vec<Item>,
    pub user_item: Item,
    pub iteration: u32,
    pub max_iterations: u32,
    pub max_history: u32,
    pub prev_response_id: Option<String>,
    pub pending_outputs: Vec<Item>,
    pub last_usage: Option<Usage>,
    /// Call ids of the calls recorded in the history that still await their
    /// outputs; empty between iterations.
    pub awaiting: Vec<String>,
    /// The closed part of the history, before any open call block.
    pub base: Ghost<Seq<ItemV>>,
}

impl TurnState {
    /// The engine's invariant: the history keeps every function call
    /// answered before the next assistant message, except for the calls of
    /// the current response, which stand at the end awaiting their outputs.
    pub open spec fn wf(&self) -> bool {
        if self.awaiting@.len() == 0 {
            calls_closed(items_view(self.history@))
        } else {
            let hv = items_view(self.history@);
            &&& calls_closed(self.base@)
            &&& hv.len() == self.base@.len() + self.awaiting@.len()
            &&& hv.take(self.base@.len() as int) == self.base@
            &&& forall|k: int|
                0 <= k < self.awaiting@.len() ==> call_id_of(
                    hv[self.base@.len() + k],
                ) == Some((#[trigger] self.awaiting@[k])@)
        }
    }

    /// Start a turn: append the user's message to the history.
    pub fn begin(
        history: Vec<Item>,
        user_message: &str,
        prev_response_id: Option<String>,
        max_iterations: u32,
        max_history: u32,
    ) -> (s: TurnState)
        requires
            calls_closed(items_view(history@)),
        ensures
            s.wf(),
            s.iteration == 0,
            s.max_iterations == max_iterations,
            s.max_history == max_history,
            s.prev_response_id == prev_response_id,
            s.user_item@ == (ItemV::Message { role: Role::User, content: user_message@ }),
            items_view(s.history@) == items_view(history@) + seq![
                ItemV::Message { role: Role::User, content: user_message@ },
            ],
            s.pending_outputs@.len() == 0,
            s.awaiting@.len() == 0,
            s.last_usage is None,
    {
        let user_item = Item::Message { role: Role::User, content: user_message.to_owned() };
        let mut h = history;
        proof {
            lemma_items_view(h@);
        }
        let ghost h0 = items_view(h@);
        let uc = item_clone(&user_item);
        h.push(uc);
        proof {
            lemma_items_view(h@);
            assert(items_view(h@) =~~= h0 + seq![
                ItemV::Message { role: Role::User, content: user_message@ },
            ]);
            lemma_closed_extend(
                h0,
                seq![ItemV::Message { role: Role::User, content: user_message@ }],
            );
        }
        TurnState {
            history: h,
            user_item,
            iteration: 0,
            max_iterations,
            max_history,
            prev_response_id,
            pending_outputs: Vec::new(),
            last_usage: None,
            awaiting: Vec::new(),
            base: Ghost(Seq::empty()),
        }
    }

    /// The input items for the next model request: on a chained first
    /// iteration only the new user message; on an unchained first iteration
    /// the full history; afterwards only the last tool outputs.
    pub fn next_input(&self) -> (r: Vec<Item>)
        ensures
            items_view(r@) == (if self.iteration == 0 {
                if self.prev_response_id is Some {
                    seq![self.user_item@]
                } else {
                    items_view(self.history@)
                }
            } else {
                items_view(self.pending_outputs@)
            }),
    {
        if self.iteration == 0 {
            if self.prev_response_id.is_some() {
                let mut v: Vec<Item> = Vec::new();
                let c = item_clone(&self.user_item);
                v.push(c);
                proof {
                    lemma_items_view(v@);
                    assert(items_view(v@) =~~= seq![self.user_item@]);
                }
                v
            } else {
                items_clone(&self.history)
            }
        } else {
            items_clone(&self.pending_outputs)
        }
    }
}

fn append_msgs(history: &mut Vec<Item>, output: &Vec<OutputItem>)
    ensures
        items_view(final(history)@) == items_view(old(history)@) + msgs_of(outputs_view(output@)),
{
    proof {
        crate::items::lemma_outputs_view(output@);
        lemma_items_view(old(history)@);
    }
    let ghost ov = outputs_view(output@);
    assert(ov.take(0) =~= Seq::<OutputItemV>::empty());
    assert(items_view(history@) =~= items_view(history@) + msgs_of(ov.take(0)));
    let mut k: usize = 0;
    while k < output.len()
        invariant
            0 <= k <= output@.len(),
            ov == outputs_view(output@),
            ov.len() == output@.len(),
            forall|i: int| 0 <= i < output@.len() ==> ov[i] == output@[i]@,
            items_view(history@) == items_view(old(history)@) + msgs_of(ov.take(k as int)),
        decreases output@.len() - k,
    {
        proof {
            lemma_items_view(history@);
        }
        let ghost h0 = items_view(history@);
        match &output[k] {
            OutputItem::Message { role, content, .. } => {
                let text = message_text(content);
                if text.len() > 0 {
                    history.push(Item::Message { role: *role, content: chars_to_string(&text) });
                }
                proof {
                    lemma_items_view(history@);
                }
            },
            _ => {},
        }
        proof {
            lemma_items_view(history@);
            assert(ov.take(k + 1).take(k as int) =~= ov.take(k as int));
            assert(ov.take(k + 1)[k as int] == ov[k as int]);
            match ov[k as int] {
                OutputItemV::Message { role, content, .. } => {
                    if msg_text(content).len() > 0 {
                        assert(msgs_of(ov.take(k + 1)) =~~= msgs_of(ov.take(k as int)) + seq![
                            ItemV::Message { role, content: msg_text(content) },
                        ]);
                        assert(items_view(history@) =~~= h0 + seq![
                            ItemV::Message { role, content: msg_text(content) },
                        ]);
                    } else {
                        assert(msgs_of(ov.take(k + 1)) =~~= msgs_of(ov.take(k as int)));
                    }
                },
                _ => {
                    assert(msgs_of(ov.take(k + 1)) =~~= msgs_of(ov.take(k as int)));
                },
            }
            assert(items_view(history@) =~~= items_view(old(history)@) + msgs_of(ov.take(k + 1)));
        }
        k += 1;
    }
    proof {
        assert(ov.take(output@.len() as int) =~= ov);
    }
}

fn append_calls(history: &mut Vec<Item>, awaiting: &mut Vec<String>, output: &Vec<OutputItem>)
    requires
        old(awaiting)@.len() == 0,
    ensures
        items_view(final(history)@) == items_view(old(history)@) + call_items(
            outputs_view(output@),
        ),
        final(awaiting)@.len() == calls_of(outputs_view(output@)).len(),
        forall|k: int|
            0 <= k < final(awaiting)@.len() ==> (#[trigger] final(awaiting)@[k])@ == calls_of(
                outputs_view(output@),
            )[k].0,
{
    proof {
        crate::items::lemma_outputs_view(output@);
        lemma_items_view(old(history)@);
    }
    let ghost ov = outputs_view(output@);
    assert(ov.take(0) =~= Seq::<OutputItemV>::empty());
    assert(items_view(history@) =~= items_view(history@) + call_items(ov.take(0)));
    let mut k: usize = 0;
    while k < output.len()
        invariant
            0 <= k <= output@.len(),
            ov == outputs_view(output@),
            ov.len() == output@.len(),
            forall|i: int| 0 <= i < output@.len() ==> ov[i] == output@[i]@,
            items_view(history@) == items_view(old(history)@) + call_items(ov.take(k as int)),
            awaiting@.len() == calls_of(ov.take(k as int)).len(),
            forall|i: int|
                0 <= i < awaiting@.len() ==> (#[trigger] awaiting@[i])@ == calls_of(
                    ov.take(k as int),
                )[i].0,
        decreases output@.len() - k,
    {
        proof {
            lemma_items_view(history@);
        }
        let ghost h0 = items_view(history@);
        let ghost a0 = awaiting@;
        match &output[k] {
            OutputItem::FunctionCall { id, call_id, name, arguments } => {
                history.push(
                    Item::FunctionCall {
                        id: id.clone(),
                        call_id: call_id.clone(),
                        name: name.clone(),
                        arguments: arguments.clone(),
                    },
                );
                awaiting.push(call_id.clone());
                proof {
                    lemma_items_view(history@);
                }
            },
            _ => {},
        }
        proof {
            lemma_items_view(history@);
            assert(ov.take(k + 1).take(k as int) =~= ov.take(k as int));
            assert(ov.take(k + 1)[k as int] == ov[k as int]);
            match ov[k as int] {
                OutputItemV::FunctionCall { id, call_id, name, arguments } => {
                    assert(call_items(ov.take(k + 1)) =~~= call_items(ov.take(k as int)) + seq![
                        ItemV::FunctionCall { id, call_id, name, arguments },
                    ]);
                    assert(items_view(history@) =~~= h0 + seq![
                        ItemV::FunctionCall { id, call_id, name, arguments },
                    ]);
                    assert(calls_of(ov.take(k + 1)) =~~= calls_of(ov.take(k as int)) + seq![
                        (call_id, name, arguments),
                    ]);
                },
                _ => {
                    assert(call_items(ov.take(k + 1)) =~~= call_items(ov.take(k as int)));
                    assert(calls_of(ov.take(k + 1)) =~~= calls_of(ov.take(k as int)));
                },
            }
            assert(items_view(history@) =~~= items_view(old(history)@) + call_items(
                ov.take(k + 1),
            ));
        }
        k += 1;
    }
    proof {
        assert(ov.take(output@.len() as int) =~= ov);
    }
}

impl TurnState {
    /// Digest one model response. A failed status aborts the turn with the
    /// provider's message; a response without function calls finishes the
    /// turn with the concatenated reply text and the processed history; a
    /// response with calls records them and asks the driver to execute them.
    #[verifier::rlimit(60)]
    pub fn on_response(&mut self, response: &Response) -> (r: TurnOutcome)
        requires
            old(self).wf(),
            old(self).awaiting@.len() == 0,
            old(self).iteration < old(self).max_iterations,
        ensures
            final(self).wf(),
            response@.status == ResponseStatus::Failed ==> (r matches TurnOutcome::Failed {
                message,
            } && message@ == (match response@.error {
                Some(e) => e.1,
                None => "Unknown LLM error"@,
            })),
            response@.status != ResponseStatus::Failed ==> ({
                &&& (final(self).prev_response_id matches Some(id) && id@ == response@.id)
                &&& final(self).last_usage == response@.usage
                &&& final(self).max_history == old(self).max_history
                &&& final(self).max_iterations == old(self).max_iterations
                &&& (calls_of(response@.output).len() == 0 ==> (r
                    matches TurnOutcome::Finished { result } && ({
                    &&& result.text@ == response_text(response@)
                    &&& items_view(result.history@) == trimmed(
                        stripped(
                            items_view(old(self).history@) + recorded_items(response@.output),
                        ),
                        old(self).max_history as nat,
                    )
                    &&& result.usage == response@.usage
                    &&& (result.last_response_id matches Some(id2) && id2@ == response@.id)
                    &&& final(self).awaiting@.len() == 0
                })))
                &&& (calls_of(response@.output).len() > 0 ==> (r matches TurnOutcome::Continue {
                    calls,
                } && ({
                    &&& calls_view(calls@) == calls_of(response@.output)
                    &&& final(self).awaiting@.len() == calls_of(response@.output).len()
                    &&& final(self).iteration == old(self).iteration + 1
                    &&& items_view(final(self).history@) == items_view(old(self).history@)
                        + msgs_of(response@.output) + call_items(response@.output)
                })))
            }),
    {
        if self.status_failed(response) {
            let message = match &response.error {
                Some(e) => e.message.clone(),
                None => "Unknown LLM error".to_owned(),
            };
            return TurnOutcome::Failed { message };
        }
        self.prev_response_id = Some(response.id.clone());
        self.last_usage = response.usage;
        let calls = response.function_calls();
        proof {
            crate::items::lemma_calls_view(calls@);
        }
        if calls.len() == 0 {
            let ghost h0 = items_view(self.history@);
            append_output_to_history(&mut self.history, &response.output);
            proof {
                lemma_recorded_no_calls(outputs_view(response.output@));
                lemma_closed_extend(h0, recorded_items(outputs_view(response.output@)));
            }
            let mut result_history = items_clone(&self.history);
            strip_reasoning(&mut result_history);
            trim_history(&mut result_history, self.max_history as usize);
            let text = response.text();
            let last_response_id = match &self.prev_response_id {
                Some(s) => Some(s.clone()),
                None => None,
            };
            let result = TurnResult {
                text,
                history: result_history,
                usage: self.last_usage,
                last_response_id,
            };
            TurnOutcome::Finished { result }
        } else {
            let ghost h0 = items_view(self.history@);
            append_msgs(&mut self.history, &response.output);
            proof {
                lemma_msgs_no_calls(outputs_view(response.output@));
                lemma_closed_extend(h0, msgs_of(outputs_view(response.output@)));
            }
            self.base = Ghost(items_view(self.history@));
            append_calls(&mut self.history, &mut self.awaiting, &response.output);
            proof {
                lemma_call_items(outputs_view(response.output@));
                lemma_items_view(self.history@);
                assert(items_view(self.history@).take(self.base@.len() as int)
                    =~= self.base@);
            }
            self.iteration = self.iteration + 1;
            self.pending_outputs = Vec::new();
            TurnOutcome::Continue { calls }
        }
    }

    fn status_failed(&self, response: &Response) -> (r: bool)
        ensures
            r == (response@.status == ResponseStatus::Failed),
    {
        match response.status {
            ResponseStatus::Failed => true,
            _ => false,
        }
    }

    /// Whether the iteration budget is spent.
    pub fn exhausted(&self) -> (r: bool)
        ensures
            r == (self.iteration >= self.max_iterations),
    {
        self.iteration >= self.max_iterations
    }

    /// The error returned when the loop spends its whole iteration budget
    /// without a text-only response.
    pub fn iterations_error(&self) -> (e: crate::error::NekoError)
        ensures
            e matches crate::error::NekoError::Agent(m) && m@ == "Agent loop exceeded "@
                + spec_dec(self.max_iterations as nat) + " iterations"@,
    {
        let mut v = str_chars("Agent loop exceeded ");
        let mut d = u64_chars(self.max_iterations as u64);
        v.append(&mut d);
        push_str(&mut v, " iterations");
        crate::error::NekoError::Agent(chars_to_string(&v))
    }
}

/// The function-call-output items for a list of `(call id, output)` pairs.
pub open spec fn fco_items(outs: Seq<(Seq<char>, Seq<char>)>) -> Seq<ItemV>
    decreases outs.len(),
{
    if outs.len() == 0 {
        Seq::empty()
    } else {
        fco_items(outs.take(outs.len() - 1)) + seq![
            ItemV::FunctionCallOutput {
                call_id: outs[outs.len() - 1].0,
                output: outs[outs.len() - 1].1,
            },
        ]
    }
}

/// Element-wise description of `fco_items`.
pub proof fn lemma_fco_items(outs: Seq<(Seq<char>, Seq<char>)>)
    ensures
        fco_items(outs).len() == outs.len(),
        forall|k: int|
            0 <= k < outs.len() ==> fco_items(outs)[k] == (ItemV::FunctionCallOutput {
                call_id: outs[k].0,
                output: outs[k].1,
            }),
    decreases outs.len(),
{
    if outs.len() > 0 {
        lemma_fco_items(outs.take(outs.len() - 1));
    }
}

/// The models of a list of `(call id, output)` string pairs.
pub open spec fn pairs_view(s: Seq<(String, String)>) -> Seq<(Seq<char>, Seq<char>)> {
    s.map_values(|t: (String, String)| (t.0@, t.1@))
}

/// Element-wise description of `pairs_view`.
pub proof fn lemma_pairs_view(s: Seq<(String, String)>)
    ensures
        pairs_view(s).len() == s.len(),
        forall|i: int| 0 <= i < s.len() ==> pairs_view(s)[i] == (s[i].0@, s[i].1@),
{
}

impl TurnState {
    /// Record the outputs of the awaited calls, in order: one
    /// function-call-output item per call, appended to the history and kept
    /// as the input for the next iteration. Refused (`false`, no change)
    /// unless the pairs line up one to one with the awaited call ids.
    #[verifier::loop_isolation(false)]
    #[verifier::rlimit(60)]
    pub fn record_outputs(&mut self, outputs: &Vec<(String, String)>) -> (ok: bool)
        requires
            old(self).wf(),
        ensures
            final(self).wf() || !ok,
            ok == (old(self).awaiting@.len() > 0 && outputs@.len() == old(self).awaiting@.len()
                && (forall|k: int|
                0 <= k < outputs@.len() ==> (#[trigger] outputs@[k]).0@
                    == old(self).awaiting@[k]@)),
            ok ==> ({
                &&& final(self).wf()
                &&& final(self).awaiting@.len() == 0
                &&& items_view(final(self).history@) == items_view(old(self).history@)
                    + fco_items(pairs_view(outputs@))
                &&& items_view(final(self).pending_outputs@) == fco_items(pairs_view(outputs@))
                &&& final(self).iteration == old(self).iteration
                &&& final(self).max_history == old(self).max_history
                &&& final(self).max_iterations == old(self).max_iterations
                &&& final(self).prev_response_id == old(self).prev_response_id
                &&& final(self).last_usage == old(self).last_usage
            }),
            !ok ==> *final(self) == *old(self),
    {
        proof {
            lemma_pairs_view(outputs@);
        }
        if self.awaiting.len() == 0 || outputs.len() != self.awaiting.len() {
            return false;
        }
        let mut k: usize = 0;
        while k < outputs.len()
            invariant
                0 <= k <= outputs@.len(),
                forall|i: int| 0 <= i < k ==> (#[trigger] outputs@[i]).0@ == self.awaiting@[i]@,
            decreases outputs@.len() - k,
        {
            let a = str_chars(outputs[k].0.as_str());
            let b = str_chars(self.awaiting[k].as_str());
            if !crate::text::chars_eq(&a, &b) {
                return false;
            }
            k += 1;
        }
        let ghost hv0 = items_view(self.history@);
        let ghost basev = self.base@;
        let ghost callseg = hv0.skip(basev.len() as int);
        let mut pending: Vec<Item> = Vec::new();
        let mut m: usize = 0;
        let ghost pv = pairs_view(outputs@);
        proof {
            lemma_fco_items(pv);
            assert(pv.take(0) =~= Seq::<(Seq<char>, Seq<char>)>::empty());
        }
        while m < outputs.len()
            invariant
                0 <= m <= outputs@.len(),
                items_view(self.history@) == hv0 + fco_items(pv.take(m as int)),
                items_view(pending@) == fco_items(pv.take(m as int)),
                self.awaiting@ == old(self).awaiting@,
                self.base@ == basev,
                self.iteration == old(self).iteration,
                self.max_history == old(self).max_history,
                self.max_iterations == old(self).max_iterations,
                self.prev_response_id == old(self).prev_response_id,
                self.last_usage == old(self).last_usage,
                self.user_item == old(self).user_item,
            decreases outputs@.len() - m,
        {
            proof {
                lemma_items_view(self.history@);
                lemma_items_view(pending@);
            }
            let ghost h1 = items_view(self.history@);
            let ghost p1 = items_view(pending@);
            let item = Item::FunctionCallOutput {
                call_id: outputs[m].0.clone(),
                output: outputs[m].1.clone(),
            };
            let item2 = item_clone(&item);
            self.history.push(item);
            pending.push(item2);
            proof {
                lemma_items_view(self.history@);
                lemma_items_view(pending@);
                assert(pv.take(m + 1).take(m as int) =~= pv.take(m as int));
                assert(pv.take(m + 1)[m as int] == pv[m as int]);
                assert(fco_items(pv.take(m + 1)) =~~= fco_items(pv.take(m as int)) + seq![
                    ItemV::FunctionCallOutput { call_id: pv[m as int].0, output: pv[m as int].1 },
                ]);
                assert(items_view(self.history@) =~~= h1 + seq![
                    ItemV::FunctionCallOutput { call_id: pv[m as int].0, output: pv[m as int].1 },
                ]);
                assert(items_view(pending@) =~~= p1 + seq![
                    ItemV::FunctionCallOutput { call_id: pv[m as int].0, output: pv[m as int].1 },
                ]);
            }
            m += 1;
        }
        self.pending_outputs = pending;
        self.awaiting = Vec::new();
        proof {
            assert(pv.take(outputs@.len() as int) =~= pv);
            let outseg = fco_items(pv);
            lemma_fco_items(pv);
            assert(hv0 =~= basev + callseg);
            assert forall|k2: int| 0 <= k2 < callseg.len() implies call_id_of(
                #[trigger] callseg[k2],
            ) is Some by {
                let a = old(self).awaiting@[k2];
                assert(call_id_of(hv0[basev.len() + k2]) == Some(a@));
                assert(callseg[k2] == hv0[basev.len() + k2]);
            }
            assert forall|k2: int| 0 <= k2 < outseg.len() implies output_id_of(
                #[trigger] outseg[k2],
            ) == call_id_of(callseg[k2]) && output_id_of(outseg[k2]) is Some by {
                let a = old(self).awaiting@[k2];
                assert(call_id_of(hv0[basev.len() + k2]) == Some(a@));
                assert(callseg[k2] == hv0[basev.len() + k2]);
                assert(outseg[k2] == (ItemV::FunctionCallOutput {
                    call_id: pv[k2].0,
                    output: pv[k2].1,
                }));
                assert(pv[k2].0 == outputs@[k2].0@);
                assert(outputs@[k2].0@ == a@);
            }
            assert(call_block(callseg, outseg));
            lemma_closed_call_block(basev, callseg, outseg);
            assert(items_view(self.history@) =~= basev + callseg + outseg);
        }
        true
    }
}

/// The text recorded for a tool call's result: error results and dispatch
/// failures carry an error prefix so the model sees them as such.
pub fn compose_tool_output(is_error: bool, output: &str) -> (r: String)
    ensures
        r@ == if is_error {
            "[ERROR] "@ + output@
        } else {
            output@
        },
{
    if is_error {
        let mut v = str_chars("[ERROR] ");
        push_str(&mut v, output);
        chars_to_string(&v)
    } else {
        output.to_owned()
    }
}

} // verus!
