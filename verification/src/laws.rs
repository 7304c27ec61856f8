//! Properties of whole runs of a reader, over many calls of `next`.
use vstd::prelude::*;
use crate::model::Triple;
use crate::raw::RawTriple;
use crate::error::ParserError;
use crate::read::{
    polled, quad_reader_next, quads_mapped, triple_reader_next, triples_mapped, QuadReaderView, ReaderAction, StepOutcome,
    TripleReaderView,
};
use crate::model::Quad;
use crate::raw::RawQuad;
use crate::mapper::{
    extends_with, fresh_extension, labels_apart, law_fresh_extension_chains,
    law_fresh_extension_keeps_labels_apart, lemma_fresh_extension_same, lemma_quad_mapped_grow,
    lemma_triple_mapped_grow, LabelMap,
};
use crate::raw::{quads_labels, triples_labels};

verus! {

/// `views`, `steps` and `actions` describe consecutive calls of `TripleReader::next`:
/// call `i` goes from `views[i]` to `views[i + 1]`.
pub open spec fn triple_run(
    views: Seq<TripleReaderView>,
    steps: Seq<Option<StepOutcome<RawTriple>>>,
    actions: Seq<ReaderAction<Triple>>,
) -> bool {
    &&& views.len() == steps.len() + 1
    &&& actions.len() == steps.len()
    &&& forall|i: int|
        #![trigger steps[i]]
        0 <= i < steps.len() ==> triple_reader_next(
            views[i],
            steps[i],
            views[i + 1],
            actions[i],
        )
}

/// `views`, `steps` and `actions` describe consecutive calls of `QuadReader::next`.
pub open spec fn quad_run(
    views: Seq<QuadReaderView>,
    steps: Seq<Option<StepOutcome<RawQuad>>>,
    actions: Seq<ReaderAction<Quad>>,
) -> bool {
    &&& views.len() == steps.len() + 1
    &&& actions.len() == steps.len()
    &&& forall|i: int|
        #![trigger steps[i]]
        0 <= i < steps.len() ==> quad_reader_next(
            views[i],
            steps[i],
            views[i + 1],
            actions[i],
        )
}

/// Blank node labels are scoped to the document: once a triple reader has given a
/// label a blank node, it gives that label the same node for the rest of the
/// document, whatever the syntax parser reports; the reader also keeps its syntax
/// parser.
pub proof fn law_triple_reader_blank_nodes_stable(
    views: Seq<TripleReaderView>,
    steps: Seq<Option<StepOutcome<RawTriple>>>,
    actions: Seq<ReaderAction<Triple>>,
    i: int,
    j: int,
)
    requires
        triple_run(views, steps, actions),
        0 <= i <= j < views.len(),
    ensures
        views[i].labels.submap_of(views[j].labels),
        views[i].kind == views[j].kind,
    decreases j - i,
{
    if i < j {
        law_triple_reader_blank_nodes_stable(views, steps, actions, i, j - 1);
        assert(triple_reader_next(views[j - 1], steps[j - 1], views[j], actions[j - 1]));
        vstd::map_lib::lemma_submap_of_trans(views[i].labels, views[j - 1].labels, views[j].labels);
    }
}

/// Blank node labels are scoped to the document: once a quad reader has given a
/// label a blank node, it gives that label the same node for the rest of the document.
pub proof fn law_quad_reader_blank_nodes_stable(
    views: Seq<QuadReaderView>,
    steps: Seq<Option<StepOutcome<RawQuad>>>,
    actions: Seq<ReaderAction<Quad>>,
    i: int,
    j: int,
)
    requires
        quad_run(views, steps, actions),
        0 <= i <= j < views.len(),
    ensures
        views[i].labels.submap_of(views[j].labels),
        views[i].kind == views[j].kind,
    decreases j - i,
{
    if i < j {
        law_quad_reader_blank_nodes_stable(views, steps, actions, i, j - 1);
        assert(quad_reader_next(views[j - 1], steps[j - 1], views[j], actions[j - 1]));
        vstd::map_lib::lemma_submap_of_trans(views[i].labels, views[j - 1].labels, views[j].labels);
    }
}

/// Called without step outcomes, a triple reader yields each waiting triple once,
/// the last one first, and asks for a step only when none is left.
pub proof fn law_triple_reader_drains_last_first(
    views: Seq<TripleReaderView>,
    steps: Seq<Option<StepOutcome<RawTriple>>>,
    actions: Seq<ReaderAction<Triple>>,
)
    requires
        triple_run(views, steps, actions),
        steps.len() == views[0].buffer.len() + 1,
        forall|i: int| 0 <= i < steps.len() ==> #[trigger] steps[i] is None,
    ensures
        forall|i: int|
            0 <= i < views[0].buffer.len() ==> #[trigger] actions[i]
                == ReaderAction::<Triple>::Emit(views[0].buffer[views[0].buffer.len() - 1 - i]),
        actions[views[0].buffer.len() as int] is NeedStep,
        views[views[0].buffer.len() + 1int].buffer.len() == 0,
        views[views[0].buffer.len() + 1int].labels == views[0].labels,
{
    let b = views[0].buffer;
    let n: int = b.len() as int;
    assert forall|i: int| 0 <= i <= n implies #[trigger] views[i].buffer == b.subrange(0, n - i)
        && views[i].labels == views[0].labels by {
        lemma_triple_drain_prefix(views, steps, actions, i);
    }
    assert forall|i: int| 0 <= i < n implies #[trigger] actions[i] == ReaderAction::<Triple>::Emit(
        b[n - 1 - i],
    ) by {
        assert(steps[i] is None);
        assert(triple_reader_next(views[i], steps[i], views[i + 1], actions[i]));
        assert(views[i].buffer == b.subrange(0, n - i));
    }
    assert(steps[n] is None);
    assert(triple_reader_next(views[n], steps[n], views[n + 1], actions[n]));
    assert(views[n].buffer == b.subrange(0, 0));
}

proof fn lemma_triple_drain_prefix(
    views: Seq<TripleReaderView>,
    steps: Seq<Option<StepOutcome<RawTriple>>>,
    actions: Seq<ReaderAction<Triple>>,
    i: int,
)
    requires
        triple_run(views, steps, actions),
        steps.len() == views[0].buffer.len() + 1,
        forall|k: int| 0 <= k < steps.len() ==> #[trigger] steps[k] is None,
        0 <= i <= views[0].buffer.len(),
    ensures
        views[i].buffer == views[0].buffer.subrange(0, views[0].buffer.len() - i),
        views[i].labels == views[0].labels,
    decreases i,
{
    let b = views[0].buffer;
    if i == 0 {
        assert(b.subrange(0, b.len() as int) =~= b);
    } else {
        lemma_triple_drain_prefix(views, steps, actions, i - 1);
        assert(steps[i - 1] is None);
        assert(triple_reader_next(views[i - 1], steps[i - 1], views[i], actions[i - 1]));
        assert(b.subrange(0, b.len() - (i - 1)).drop_last() =~= b.subrange(0, b.len() - i));
    }
}

/// Called without step outcomes, a quad reader yields each waiting quad once,
/// the last one first, and asks for a step only when none is left.
pub proof fn law_quad_reader_drains_last_first(
    views: Seq<QuadReaderView>,
    steps: Seq<Option<StepOutcome<RawQuad>>>,
    actions: Seq<ReaderAction<Quad>>,
)
    requires
        quad_run(views, steps, actions),
        steps.len() == views[0].buffer.len() + 1,
        forall|i: int| 0 <= i < steps.len() ==> #[trigger] steps[i] is None,
    ensures
        forall|i: int|
            0 <= i < views[0].buffer.len() ==> #[trigger] actions[i]
                == ReaderAction::<Quad>::Emit(views[0].buffer[views[0].buffer.len() - 1 - i]),
        actions[views[0].buffer.len() as int] is NeedStep,
        views[views[0].buffer.len() + 1int].buffer.len() == 0,
        views[views[0].buffer.len() + 1int].labels == views[0].labels,
{
    let b = views[0].buffer;
    let n: int = b.len() as int;
    assert forall|i: int| 0 <= i <= n implies #[trigger] views[i].buffer == b.subrange(0, n - i)
        && views[i].labels == views[0].labels by {
        lemma_quad_drain_prefix(views, steps, actions, i);
    }
    assert forall|i: int| 0 <= i < n implies #[trigger] actions[i] == ReaderAction::<Quad>::Emit(
        b[n - 1 - i],
    ) by {
        assert(steps[i] is None);
        assert(quad_reader_next(views[i], steps[i], views[i + 1], actions[i]));
        assert(views[i].buffer == b.subrange(0, n - i));
    }
    assert(steps[n] is None);
    assert(quad_reader_next(views[n], steps[n], views[n + 1], actions[n]));
    assert(views[n].buffer == b.subrange(0, 0));
}

proof fn lemma_quad_drain_prefix(
    views: Seq<QuadReaderView>,
    steps: Seq<Option<StepOutcome<RawQuad>>>,
    actions: Seq<ReaderAction<Quad>>,
    i: int,
)
    requires
        quad_run(views, steps, actions),
        steps.len() == views[0].buffer.len() + 1,
        forall|k: int| 0 <= k < steps.len() ==> #[trigger] steps[k] is None,
        0 <= i <= views[0].buffer.len(),
    ensures
        views[i].buffer == views[0].buffer.subrange(0, views[0].buffer.len() - i),
        views[i].labels == views[0].labels,
    decreases i,
{
    let b = views[0].buffer;
    if i == 0 {
        assert(b.subrange(0, b.len() as int) =~= b);
    } else {
        lemma_quad_drain_prefix(views, steps, actions, i - 1);
        assert(steps[i - 1] is None);
        assert(quad_reader_next(views[i - 1], steps[i - 1], views[i], actions[i - 1]));
        assert(b.subrange(0, b.len() - (i - 1)).drop_last() =~= b.subrange(0, b.len() - i));
    }
}

/// An idle triple reader that is handed the outcome of a step that ended without
/// error, and then called without step outcomes, yields every statement of the step
/// as a triple, each once, the last one first, and only then asks for another step.
pub proof fn law_triple_reader_yields_each_statement_once(
    views: Seq<TripleReaderView>,
    steps: Seq<Option<StepOutcome<RawTriple>>>,
    actions: Seq<ReaderAction<Triple>>,
    statements: Vec<RawTriple>,
)
    requires
        triple_run(views, steps, actions),
        views[0].buffer.len() == 0,
        steps.len() == statements.len() + 1,
        steps[0] == Some(StepOutcome::<RawTriple>::Parsed { statements, error: None }),
        forall|i: int| 1 <= i < steps.len() ==> #[trigger] steps[i] is None,
    ensures
        exists|mapped: Seq<Triple>|
            #![trigger triples_mapped(statements@, views.last().labels, mapped)]
            {
                &&& triples_mapped(statements@, views.last().labels, mapped)
                &&& forall|i: int|
                    0 <= i < statements.len() ==> #[trigger] actions[i]
                        == ReaderAction::<Triple>::Emit(mapped[statements.len() - 1 - i])
                &&& actions[statements.len() as int] is NeedStep
            },
{
    let n: int = statements.len() as int;
    assert(steps[0] == Some(StepOutcome::<RawTriple>::Parsed { statements, error: None }));
    assert(triple_reader_next(views[0], steps[0], views[1], actions[0]));
    let mapped = choose|mapped: Seq<Triple>|
        #![trigger triples_mapped(statements@, views[1].labels, mapped)]
        {
            &&& triples_mapped(statements@, views[1].labels, mapped)
            &&& polled(views[0].buffer + mapped, views[1].buffer, actions[0])
        };
    assert(views[0].buffer + mapped =~= mapped);
    let vs = views.subrange(1, views.len() as int);
    let ss = steps.subrange(1, steps.len() as int);
    let acts = actions.subrange(1, actions.len() as int);
    assert forall|i: int| 0 <= i < ss.len() implies triple_reader_next(
        vs[i],
        #[trigger] ss[i],
        vs[i + 1],
        acts[i],
    ) by {
        assert(steps[i + 1] is None || steps[i + 1] == ss[i]);
        assert(triple_reader_next(views[i + 1], steps[i + 1], views[i + 2], actions[i + 1]));
    }
    assert forall|i: int| 0 <= i < ss.len() implies #[trigger] ss[i] is None by {
        assert(steps[i + 1] is None);
    }
    if n > 0 {
        assert(vs[0].buffer == mapped.drop_last());
        law_triple_reader_drains_last_first(vs, ss, acts);
        assert(vs[vs[0].buffer.len() + 1int] == views.last());
        assert forall|i: int| 0 <= i < n implies #[trigger] actions[i]
            == ReaderAction::<Triple>::Emit(mapped[n - 1 - i]) by {
            if i > 0 {
                assert(acts[i - 1] == actions[i]);
                assert(mapped.drop_last()[n - 2 - (i - 1)] == mapped[n - 1 - i]);
            }
        }
        assert(acts[n - 1] == actions[n]);
    }
    assert(triples_mapped(statements@, views.last().labels, mapped));
}

/// An idle quad reader that is handed the outcome of a step that ended without
/// error, and then called without step outcomes, yields every statement of the step
/// as a quad, each once, the last one first, and only then asks for another step.
pub proof fn law_quad_reader_yields_each_statement_once(
    views: Seq<QuadReaderView>,
    steps: Seq<Option<StepOutcome<RawQuad>>>,
    actions: Seq<ReaderAction<Quad>>,
    statements: Vec<RawQuad>,
)
    requires
        quad_run(views, steps, actions),
        views[0].buffer.len() == 0,
        steps.len() == statements.len() + 1,
        steps[0] == Some(StepOutcome::<RawQuad>::Parsed { statements, error: None }),
        forall|i: int| 1 <= i < steps.len() ==> #[trigger] steps[i] is None,
    ensures
        exists|mapped: Seq<Quad>|
            #![trigger quads_mapped(statements@, views.last().labels, mapped)]
            {
                &&& quads_mapped(statements@, views.last().labels, mapped)
                &&& forall|i: int|
                    0 <= i < statements.len() ==> #[trigger] actions[i]
                        == ReaderAction::<Quad>::Emit(mapped[statements.len() - 1 - i])
                &&& actions[statements.len() as int] is NeedStep
            },
{
    let n: int = statements.len() as int;
    assert(steps[0] == Some(StepOutcome::<RawQuad>::Parsed { statements, error: None }));
    assert(quad_reader_next(views[0], steps[0], views[1], actions[0]));
    let mapped = choose|mapped: Seq<Quad>|
        #![trigger quads_mapped(statements@, views[1].labels, mapped)]
        {
            &&& quads_mapped(statements@, views[1].labels, mapped)
            &&& polled(views[0].buffer + mapped, views[1].buffer, actions[0])
        };
    assert(views[0].buffer + mapped =~= mapped);
    let vs = views.subrange(1, views.len() as int);
    let ss = steps.subrange(1, steps.len() as int);
    let acts = actions.subrange(1, actions.len() as int);
    assert forall|i: int| 0 <= i < ss.len() implies quad_reader_next(
        vs[i],
        #[trigger] ss[i],
        vs[i + 1],
        acts[i],
    ) by {
        assert(steps[i + 1] is None || steps[i + 1] == ss[i]);
        assert(quad_reader_next(views[i + 1], steps[i + 1], views[i + 2], actions[i + 1]));
    }
    assert forall|i: int| 0 <= i < ss.len() implies #[trigger] ss[i] is None by {
        assert(steps[i + 1] is None);
    }
    if n > 0 {
        assert(vs[0].buffer == mapped.drop_last());
        law_quad_reader_drains_last_first(vs, ss, acts);
        assert(vs[vs[0].buffer.len() + 1int] == views.last());
        assert forall|i: int| 0 <= i < n implies #[trigger] actions[i]
            == ReaderAction::<Quad>::Emit(mapped[n - 1 - i]) by {
            if i > 0 {
                assert(acts[i - 1] == actions[i]);
                assert(mapped.drop_last()[n - 2 - (i - 1)] == mapped[n - 1 - i]);
            }
        }
        assert(acts[n - 1] == actions[n]);
    }
    assert(quads_mapped(statements@, views.last().labels, mapped));
}


/// The statements that a run of `next` yields, in the order it yields them.
pub open spec fn yielded<T>(actions: Seq<ReaderAction<T>>) -> Seq<T>
    decreases actions.len(),
{
    if actions.len() == 0 {
        Seq::empty()
    } else {
        match actions.last() {
            ReaderAction::Emit(t) => yielded(actions.drop_last()).push(t),
            _ => yielded(actions.drop_last()),
        }
    }
}

/// `produced[i]` holds the triples that the statements of step `i` become with the
/// label map `labels`; a call that hands in no statements produces none.
pub open spec fn triple_products(
    steps: Seq<Option<StepOutcome<RawTriple>>>,
    labels: LabelMap,
    produced: Seq<Seq<Triple>>,
) -> bool {
    &&& produced.len() == steps.len()
    &&& forall|i: int|
        #![trigger produced[i]]
        0 <= i < steps.len() ==> match steps[i] {
            Some(StepOutcome::Parsed { statements, .. }) => triples_mapped(
                statements@,
                labels,
                produced[i],
            ),
            _ => produced[i].len() == 0,
        }
}

proof fn lemma_triples_mapped_grow(raws: Seq<RawTriple>, m1: LabelMap, m2: LabelMap, ts: Seq<Triple>)
    requires
        triples_mapped(raws, m1, ts),
        m1.submap_of(m2),
    ensures
        triples_mapped(raws, m2, ts),
{
    assert forall|i: int| 0 <= i < raws.len() implies #[trigger] crate::mapper::triple_mapped(
        raws[i],
        m2,
        ts[i],
    ) by {
        lemma_triple_mapped_grow(raws[i], m1, m2, ts[i]);
    }
}

/// Over a run of calls, what was waiting and what the steps brought is what was
/// yielded and what is left waiting.
proof fn lemma_triple_run_keeps_count(
    views: Seq<TripleReaderView>,
    steps: Seq<Option<StepOutcome<RawTriple>>>,
    actions: Seq<ReaderAction<Triple>>,
)
    requires
        triple_run(views, steps, actions),
    ensures
        exists|produced: Seq<Seq<Triple>>|
            #![trigger triple_products(steps, views.last().labels, produced)]
            {
                &&& triple_products(steps, views.last().labels, produced)
                &&& views[0].buffer.to_multiset().add(produced.flatten().to_multiset())
                    == yielded(actions).to_multiset().add(views.last().buffer.to_multiset())
            },
    decreases steps.len(),
{
    broadcast use vstd::seq_lib::group_to_multiset_ensures, vstd::seq_lib::lemma_multiset_commutative;
    broadcast use vstd::multiset::group_multiset_axioms;

    let n: int = steps.len() as int;
    if n == 0 {
        let produced = Seq::<Seq<Triple>>::empty();
        assert(triple_products(steps, views.last().labels, produced));
        assert(produced.flatten() =~= Seq::<Triple>::empty());
        assert(yielded(actions) =~= Seq::<Triple>::empty());
        assert(views.last() == views[0]);
        assert(views[0].buffer.to_multiset().add(produced.flatten().to_multiset())
            =~= yielded(actions).to_multiset().add(views.last().buffer.to_multiset()));
    } else {
        let vs = views.drop_last();
        let ss = steps.drop_last();
        let acts = actions.drop_last();
        assert forall|i: int| 0 <= i < ss.len() implies triple_reader_next(
            vs[i],
            #[trigger] ss[i],
            vs[i + 1],
            acts[i],
        ) by {
            assert(steps[i] == ss[i]);
            assert(triple_reader_next(views[i], steps[i], views[i + 1], actions[i]));
        }
        lemma_triple_run_keeps_count(vs, ss, acts);
        let before = choose|produced: Seq<Seq<Triple>>|
            #![trigger triple_products(ss, vs.last().labels, produced)]
            {
                &&& triple_products(ss, vs.last().labels, produced)
                &&& vs[0].buffer.to_multiset().add(produced.flatten().to_multiset())
                    == yielded(acts).to_multiset().add(vs.last().buffer.to_multiset())
            };
        let old = views[n - 1];
        let new = views[n];
        assert(vs.last() == old);
        assert(steps[n - 1] == steps.last());
        assert(triple_reader_next(old, steps[n - 1], new, actions[n - 1]));
        assert(actions.last() == actions[n - 1]);
        let last: Seq<Triple> = match steps[n - 1] {
            Some(StepOutcome::Parsed { statements, error }) => choose|mapped: Seq<Triple>|
                #![trigger triples_mapped(statements@, new.labels, mapped)]
                {
                    &&& extends_with(old.labels, new.labels, triples_labels(statements@))
                    &&& triples_mapped(statements@, new.labels, mapped)
                    &&& match error {
                        Some(e) => actions[n - 1] == ReaderAction::<Triple>::Fail(e)
                            && new.buffer == old.buffer + mapped,
                        None => polled(old.buffer + mapped, new.buffer, actions[n - 1]),
                    }
                },
            _ => Seq::empty(),
        };
        assert(old.labels.submap_of(new.labels));
        let produced = before.push(last);
        assert forall|i: int| 0 <= i < steps.len() implies match steps[i] {
            Some(StepOutcome::Parsed { statements, .. }) => triples_mapped(
                statements@,
                new.labels,
                #[trigger] produced[i],
            ),
            _ => produced[i].len() == 0,
        } by {
            if i < n - 1 {
                assert(produced[i] == before[i]);
                assert(ss[i] == steps[i]);
                if let Some(StepOutcome::Parsed { statements, .. }) = steps[i] {
                    lemma_triples_mapped_grow(statements@, old.labels, new.labels, before[i]);
                }
            }
        }
        assert(triple_products(steps, views.last().labels, produced));
        assert(produced.flatten() =~= before.flatten() + last) by {
            before.lemma_flatten_push(last);
        }
        // One call keeps the count: what was waiting and what the step brought
        // is what the call yields and what is left waiting.
        let out: Seq<Triple> = match actions[n - 1] {
            ReaderAction::Emit(t) => seq![t],
            _ => Seq::empty(),
        };
        assert(yielded(actions) =~= yielded(acts) + out);
        match steps[n - 1] {
            Some(StepOutcome::Parsed { statements, error }) => {
                match error {
                    Some(e) => {
                        assert(out =~= Seq::<Triple>::empty());
                    },
                    None => {
                        let b = old.buffer + last;
                        if b.len() > 0 {
                            assert(b =~= new.buffer.push(b.last()));
                            assert(out =~= seq![b.last()]);
                        } else {
                            assert(out =~= Seq::<Triple>::empty());
                        }
                        assert(b =~= new.buffer + out);
                        vstd::seq_lib::lemma_multiset_commutative(old.buffer, last);
                        vstd::seq_lib::lemma_multiset_commutative(new.buffer, out);
                    },
                }
            },
            Some(StepOutcome::End) | None => {
                if old.buffer.len() > 0 {
                    assert(old.buffer =~= new.buffer + out);
                } else {
                    assert(out =~= Seq::<Triple>::empty());
                }
            },
        }
        assert(old.buffer.to_multiset().add(last.to_multiset())
            =~= out.to_multiset().add(new.buffer.to_multiset()));
        assert(views[0] == vs[0]);
        vstd::seq_lib::lemma_multiset_commutative(before.flatten(), last);
        vstd::seq_lib::lemma_multiset_commutative(yielded(acts), out);
        assert(produced.flatten().to_multiset() =~= before.flatten().to_multiset().add(
            last.to_multiset(),
        ));
        assert(yielded(actions).to_multiset() =~= yielded(acts).to_multiset().add(
            out.to_multiset(),
        ));
        assert(vs[0].buffer.to_multiset().add(before.flatten().to_multiset())
            == yielded(acts).to_multiset().add(old.buffer.to_multiset()));
        assert(views.last() == new);
        assert forall|x: Triple|
            #[trigger] views[0].buffer.to_multiset().add(produced.flatten().to_multiset()).count(x)
                == yielded(actions).to_multiset().add(new.buffer.to_multiset()).count(x) by {
            assert(vs[0].buffer.to_multiset().add(before.flatten().to_multiset()).count(x)
                == yielded(acts).to_multiset().add(old.buffer.to_multiset()).count(x));
            assert(old.buffer.to_multiset().add(last.to_multiset()).count(x)
                == out.to_multiset().add(new.buffer.to_multiset()).count(x));
        }
        assert(views[0].buffer.to_multiset().add(produced.flatten().to_multiset())
            =~= yielded(actions).to_multiset().add(views.last().buffer.to_multiset()));
    }
}

/// `produced[i]` holds the quads that the statements of step `i` become with the
/// label map `labels`; a call that hands in no statements produces none.
pub open spec fn quad_products(
    steps: Seq<Option<StepOutcome<RawQuad>>>,
    labels: LabelMap,
    produced: Seq<Seq<Quad>>,
) -> bool {
    &&& produced.len() == steps.len()
    &&& forall|i: int|
        #![trigger produced[i]]
        0 <= i < steps.len() ==> match steps[i] {
            Some(StepOutcome::Parsed { statements, .. }) => quads_mapped(
                statements@,
                labels,
                produced[i],
            ),
            _ => produced[i].len() == 0,
        }
}

proof fn lemma_quads_mapped_grow(raws: Seq<RawQuad>, m1: LabelMap, m2: LabelMap, ts: Seq<Quad>)
    requires
        quads_mapped(raws, m1, ts),
        m1.submap_of(m2),
    ensures
        quads_mapped(raws, m2, ts),
{
    assert forall|i: int| 0 <= i < raws.len() implies #[trigger] crate::mapper::quad_mapped(
        raws[i],
        m2,
        ts[i],
    ) by {
        lemma_quad_mapped_grow(raws[i], m1, m2, ts[i]);
    }
}

/// Over a run of calls, what was waiting and what the steps brought is what was
/// yielded and what is left waiting.
proof fn lemma_quad_run_keeps_count(
    views: Seq<QuadReaderView>,
    steps: Seq<Option<StepOutcome<RawQuad>>>,
    actions: Seq<ReaderAction<Quad>>,
)
    requires
        quad_run(views, steps, actions),
    ensures
        exists|produced: Seq<Seq<Quad>>|
            #![trigger quad_products(steps, views.last().labels, produced)]
            {
                &&& quad_products(steps, views.last().labels, produced)
                &&& views[0].buffer.to_multiset().add(produced.flatten().to_multiset())
                    == yielded(actions).to_multiset().add(views.last().buffer.to_multiset())
            },
    decreases steps.len(),
{
    broadcast use vstd::seq_lib::group_to_multiset_ensures, vstd::seq_lib::lemma_multiset_commutative;
    broadcast use vstd::multiset::group_multiset_axioms;

    let n: int = steps.len() as int;
    if n == 0 {
        let produced = Seq::<Seq<Quad>>::empty();
        assert(quad_products(steps, views.last().labels, produced));
        assert(produced.flatten() =~= Seq::<Quad>::empty());
        assert(yielded(actions) =~= Seq::<Quad>::empty());
        assert(views.last() == views[0]);
        assert(views[0].buffer.to_multiset().add(produced.flatten().to_multiset())
            =~= yielded(actions).to_multiset().add(views.last().buffer.to_multiset()));
    } else {
        let vs = views.drop_last();
        let ss = steps.drop_last();
        let acts = actions.drop_last();
        assert forall|i: int| 0 <= i < ss.len() implies quad_reader_next(
            vs[i],
            #[trigger] ss[i],
            vs[i + 1],
            acts[i],
        ) by {
            assert(steps[i] == ss[i]);
            assert(quad_reader_next(views[i], steps[i], views[i + 1], actions[i]));
        }
        lemma_quad_run_keeps_count(vs, ss, acts);
        let before = choose|produced: Seq<Seq<Quad>>|
            #![trigger quad_products(ss, vs.last().labels, produced)]
            {
                &&& quad_products(ss, vs.last().labels, produced)
                &&& vs[0].buffer.to_multiset().add(produced.flatten().to_multiset())
                    == yielded(acts).to_multiset().add(vs.last().buffer.to_multiset())
            };
        let old = views[n - 1];
        let new = views[n];
        assert(vs.last() == old);
        assert(steps[n - 1] == steps.last());
        assert(quad_reader_next(old, steps[n - 1], new, actions[n - 1]));
        assert(actions.last() == actions[n - 1]);
        let last: Seq<Quad> = match steps[n - 1] {
            Some(StepOutcome::Parsed { statements, error }) => choose|mapped: Seq<Quad>|
                #![trigger quads_mapped(statements@, new.labels, mapped)]
                {
                    &&& extends_with(old.labels, new.labels, quads_labels(statements@))
                    &&& quads_mapped(statements@, new.labels, mapped)
                    &&& match error {
                        Some(e) => actions[n - 1] == ReaderAction::<Quad>::Fail(e)
                            && new.buffer == old.buffer + mapped,
                        None => polled(old.buffer + mapped, new.buffer, actions[n - 1]),
                    }
                },
            _ => Seq::empty(),
        };
        assert(old.labels.submap_of(new.labels));
        let produced = before.push(last);
        assert forall|i: int| 0 <= i < steps.len() implies match steps[i] {
            Some(StepOutcome::Parsed { statements, .. }) => quads_mapped(
                statements@,
                new.labels,
                #[trigger] produced[i],
            ),
            _ => produced[i].len() == 0,
        } by {
            if i < n - 1 {
                assert(produced[i] == before[i]);
                assert(ss[i] == steps[i]);
                if let Some(StepOutcome::Parsed { statements, .. }) = steps[i] {
                    lemma_quads_mapped_grow(statements@, old.labels, new.labels, before[i]);
                }
            }
        }
        assert(quad_products(steps, views.last().labels, produced));
        assert(produced.flatten() =~= before.flatten() + last) by {
            before.lemma_flatten_push(last);
        }
        // One call keeps the count: what was waiting and what the step brought
        // is what the call yields and what is left waiting.
        let out: Seq<Quad> = match actions[n - 1] {
            ReaderAction::Emit(t) => seq![t],
            _ => Seq::empty(),
        };
        assert(yielded(actions) =~= yielded(acts) + out);
        match steps[n - 1] {
            Some(StepOutcome::Parsed { statements, error }) => {
                match error {
                    Some(e) => {
                        assert(out =~= Seq::<Quad>::empty());
                    },
                    None => {
                        let b = old.buffer + last;
                        if b.len() > 0 {
                            assert(b =~= new.buffer.push(b.last()));
                            assert(out =~= seq![b.last()]);
                        } else {
                            assert(out =~= Seq::<Quad>::empty());
                        }
                        assert(b =~= new.buffer + out);
                        vstd::seq_lib::lemma_multiset_commutative(old.buffer, last);
                        vstd::seq_lib::lemma_multiset_commutative(new.buffer, out);
                    },
                }
            },
            Some(StepOutcome::End) | None => {
                if old.buffer.len() > 0 {
                    assert(old.buffer =~= new.buffer + out);
                } else {
                    assert(out =~= Seq::<Quad>::empty());
                }
            },
        }
        assert(old.buffer.to_multiset().add(last.to_multiset())
            =~= out.to_multiset().add(new.buffer.to_multiset()));
        assert(views[0] == vs[0]);
        vstd::seq_lib::lemma_multiset_commutative(before.flatten(), last);
        vstd::seq_lib::lemma_multiset_commutative(yielded(acts), out);
        assert(produced.flatten().to_multiset() =~= before.flatten().to_multiset().add(
            last.to_multiset(),
        ));
        assert(yielded(actions).to_multiset() =~= yielded(acts).to_multiset().add(
            out.to_multiset(),
        ));
        assert(vs[0].buffer.to_multiset().add(before.flatten().to_multiset())
            == yielded(acts).to_multiset().add(old.buffer.to_multiset()));
        assert(views.last() == new);
        assert forall|x: Quad|
            #[trigger] views[0].buffer.to_multiset().add(produced.flatten().to_multiset()).count(x)
                == yielded(actions).to_multiset().add(new.buffer.to_multiset()).count(x) by {
            assert(vs[0].buffer.to_multiset().add(before.flatten().to_multiset()).count(x)
                == yielded(acts).to_multiset().add(old.buffer.to_multiset()).count(x));
            assert(old.buffer.to_multiset().add(last.to_multiset()).count(x)
                == out.to_multiset().add(new.buffer.to_multiset()).count(x));
        }
        assert(views[0].buffer.to_multiset().add(produced.flatten().to_multiset())
            =~= yielded(actions).to_multiset().add(views.last().buffer.to_multiset()));
    }
}


/// A triple reader loses no triple and yields none twice: over any run of calls, the
/// triples waiting at the start and those that the statements of the steps become,
/// with the blank nodes of the whole document, are, counted with their
/// multiplicities, the triples yielded and those still waiting at the end. So once
/// the document has ended with no triple waiting, each triple of the document has
/// been yielded exactly once.
pub proof fn law_triple_reader_yields_every_triple_once(
    views: Seq<TripleReaderView>,
    steps: Seq<Option<StepOutcome<RawTriple>>>,
    actions: Seq<ReaderAction<Triple>>,
)
    requires
        triple_run(views, steps, actions),
    ensures
        exists|produced: Seq<Seq<Triple>>|
            #![trigger triple_products(steps, views.last().labels, produced)]
            {
                &&& triple_products(steps, views.last().labels, produced)
                &&& views[0].buffer.to_multiset().add(produced.flatten().to_multiset())
                    == yielded(actions).to_multiset().add(views.last().buffer.to_multiset())
                &&& views[0].buffer.len() == 0 && views.last().buffer.len() == 0
                    ==> produced.flatten().to_multiset() == yielded(actions).to_multiset()
            },
{
    broadcast use vstd::seq_lib::group_to_multiset_ensures;
    broadcast use vstd::multiset::group_multiset_axioms;

    lemma_triple_run_keeps_count(views, steps, actions);
    let produced = choose|produced: Seq<Seq<Triple>>|
        #![trigger triple_products(steps, views.last().labels, produced)]
        {
            &&& triple_products(steps, views.last().labels, produced)
            &&& views[0].buffer.to_multiset().add(produced.flatten().to_multiset())
                == yielded(actions).to_multiset().add(views.last().buffer.to_multiset())
        };
    if views[0].buffer.len() == 0 && views.last().buffer.len() == 0 {
        assert(views[0].buffer.to_multiset().add(produced.flatten().to_multiset())
            =~= produced.flatten().to_multiset());
        assert(yielded(actions).to_multiset().add(views.last().buffer.to_multiset())
            =~= yielded(actions).to_multiset());
    }
}

/// The error that a step reported, if any.
pub open spec fn step_error<S>(step: Option<StepOutcome<S>>) -> Option<ParserError> {
    match step {
        Some(StepOutcome::Parsed { error, .. }) => error,
        _ => None,
    }
}

/// A triple reader yields an error exactly when the step handed in reported one, and
/// yields that very error, an I/O error as an I/O error and a syntax error as a
/// syntax error; the iteration is over exactly when the syntax parser reports the end
/// of the document and no triple is waiting. So a document read without error yields
/// no error.
pub proof fn law_triple_reader_fails_and_ends_with_its_steps(
    views: Seq<TripleReaderView>,
    steps: Seq<Option<StepOutcome<RawTriple>>>,
    actions: Seq<ReaderAction<Triple>>,
)
    requires
        triple_run(views, steps, actions),
    ensures
        forall|i: int|
            0 <= i < steps.len() ==> (#[trigger] actions[i] matches ReaderAction::Fail(e)
                ==> step_error(steps[i]) == Some(e)),
        forall|i: int|
            0 <= i < steps.len() ==> (step_error(#[trigger] steps[i]) matches Some(e)
                ==> actions[i] == ReaderAction::<Triple>::Fail(e)),
        forall|i: int|
            0 <= i < steps.len() ==> (#[trigger] actions[i] is Done <==> steps[i]
                == Some(StepOutcome::<RawTriple>::End) && views[i].buffer.len() == 0),
{
    assert forall|i: int| 0 <= i < steps.len() implies triple_reader_next(
        views[i],
        #[trigger] steps[i],
        views[i + 1],
        actions[i],
    ) by {}
}

/// Once the syntax parser has reported the end of the document and no triple is
/// waiting, the iteration is over and the reader is left as it was: called again, it
/// asks for a step without changing, so the same report ends the iteration again.
pub proof fn law_triple_reader_stays_finished(
    views: Seq<TripleReaderView>,
    steps: Seq<Option<StepOutcome<RawTriple>>>,
    actions: Seq<ReaderAction<Triple>>,
)
    requires
        triple_run(views, steps, actions),
        views[0].buffer.len() == 0,
        steps.len() == 2,
        steps[0] == Some(StepOutcome::<RawTriple>::End),
        steps[1] is None,
    ensures
        actions[0] is Done,
        actions[1] is NeedStep,
        views[1] == views[0],
        views[2] == views[0],
{
    assert(triple_reader_next(views[0], steps[0], views[1], actions[0]));
    assert(triple_reader_next(views[1], steps[1], views[2], actions[1]));
}

/// A quad reader yields an error exactly when the step handed in reported one, and
/// yields that very error, an I/O error as an I/O error and a syntax error as a
/// syntax error; the iteration is over exactly when the syntax parser reports the end
/// of the document and no quad is waiting. So a document read without error yields
/// no error.
pub proof fn law_quad_reader_fails_and_ends_with_its_steps(
    views: Seq<QuadReaderView>,
    steps: Seq<Option<StepOutcome<RawQuad>>>,
    actions: Seq<ReaderAction<Quad>>,
)
    requires
        quad_run(views, steps, actions),
    ensures
        forall|i: int|
            0 <= i < steps.len() ==> (#[trigger] actions[i] matches ReaderAction::Fail(e)
                ==> step_error(steps[i]) == Some(e)),
        forall|i: int|
            0 <= i < steps.len() ==> (step_error(#[trigger] steps[i]) matches Some(e)
                ==> actions[i] == ReaderAction::<Quad>::Fail(e)),
        forall|i: int|
            0 <= i < steps.len() ==> (#[trigger] actions[i] is Done <==> steps[i]
                == Some(StepOutcome::<RawQuad>::End) && views[i].buffer.len() == 0),
{
    assert forall|i: int| 0 <= i < steps.len() implies quad_reader_next(
        views[i],
        #[trigger] steps[i],
        views[i + 1],
        actions[i],
    ) by {}
}

/// Once the syntax parser has reported the end of the document and no quad is
/// waiting, the iteration is over and the reader is left as it was: called again, it
/// asks for a step without changing, so the same report ends the iteration again.
pub proof fn law_quad_reader_stays_finished(
    views: Seq<QuadReaderView>,
    steps: Seq<Option<StepOutcome<RawQuad>>>,
    actions: Seq<ReaderAction<Quad>>,
)
    requires
        quad_run(views, steps, actions),
        views[0].buffer.len() == 0,
        steps.len() == 2,
        steps[0] == Some(StepOutcome::<RawQuad>::End),
        steps[1] is None,
    ensures
        actions[0] is Done,
        actions[1] is NeedStep,
        views[1] == views[0],
        views[2] == views[0],
{
    assert(quad_reader_next(views[0], steps[0], views[1], actions[0]));
    assert(quad_reader_next(views[1], steps[1], views[2], actions[1]));
}

/// A quad reader loses no quad and yields none twice: over any run of calls, the
/// quads waiting at the start and those that the statements of the steps become,
/// with the blank nodes of the whole document, are, counted with their
/// multiplicities, the quads yielded and those still waiting at the end. So once
/// the document has ended with no quad waiting, each quad of the document has
/// been yielded exactly once.
pub proof fn law_quad_reader_yields_every_quad_once(
    views: Seq<QuadReaderView>,
    steps: Seq<Option<StepOutcome<RawQuad>>>,
    actions: Seq<ReaderAction<Quad>>,
)
    requires
        quad_run(views, steps, actions),
    ensures
        exists|produced: Seq<Seq<Quad>>|
            #![trigger quad_products(steps, views.last().labels, produced)]
            {
                &&& quad_products(steps, views.last().labels, produced)
                &&& views[0].buffer.to_multiset().add(produced.flatten().to_multiset())
                    == yielded(actions).to_multiset().add(views.last().buffer.to_multiset())
                &&& views[0].buffer.len() == 0 && views.last().buffer.len() == 0
                    ==> produced.flatten().to_multiset() == yielded(actions).to_multiset()
            },
{
    broadcast use vstd::seq_lib::group_to_multiset_ensures;
    broadcast use vstd::multiset::group_multiset_axioms;

    lemma_quad_run_keeps_count(views, steps, actions);
    let produced = choose|produced: Seq<Seq<Quad>>|
        #![trigger quad_products(steps, views.last().labels, produced)]
        {
            &&& quad_products(steps, views.last().labels, produced)
            &&& views[0].buffer.to_multiset().add(produced.flatten().to_multiset())
                == yielded(actions).to_multiset().add(views.last().buffer.to_multiset())
        };
    if views[0].buffer.len() == 0 && views.last().buffer.len() == 0 {
        assert(views[0].buffer.to_multiset().add(produced.flatten().to_multiset())
            =~= produced.flatten().to_multiset());
        assert(yielded(actions).to_multiset().add(views.last().buffer.to_multiset())
            =~= yielded(actions).to_multiset());
    }
}

/// Within one document different blank node labels are different blank nodes: over a
/// run of a triple reader that starts with its labels apart (as `read_triples` gives
/// it, with no label met), the labels stay apart, and every label met on the way is
/// given a node that no label had at the start, a different one for each.
pub proof fn law_triple_reader_keeps_labels_apart(
    views: Seq<TripleReaderView>,
    steps: Seq<Option<StepOutcome<RawTriple>>>,
    actions: Seq<ReaderAction<Triple>>,
    j: int,
)
    requires
        triple_run(views, steps, actions),
        labels_apart(views[0].labels),
        0 <= j < views.len(),
    ensures
        labels_apart(views[j].labels),
        fresh_extension(views[0].labels, views[j].labels),
    decreases j,
{
    if j == 0 {
        lemma_fresh_extension_same(views[0].labels);
    } else {
        law_triple_reader_keeps_labels_apart(views, steps, actions, j - 1);
        assert(triple_reader_next(views[j - 1], steps[j - 1], views[j], actions[j - 1]));
        law_fresh_extension_chains(views[0].labels, views[j - 1].labels, views[j].labels);
        law_fresh_extension_keeps_labels_apart(views[j - 1].labels, views[j].labels);
    }
}

/// Within one document different blank node labels are different blank nodes: over a
/// run of a quad reader that starts with its labels apart (as `read_quads` gives
/// it, with no label met), the labels stay apart, and every label met on the way is
/// given a node that no label had at the start, a different one for each.
pub proof fn law_quad_reader_keeps_labels_apart(
    views: Seq<QuadReaderView>,
    steps: Seq<Option<StepOutcome<RawQuad>>>,
    actions: Seq<ReaderAction<Quad>>,
    j: int,
)
    requires
        quad_run(views, steps, actions),
        labels_apart(views[0].labels),
        0 <= j < views.len(),
    ensures
        labels_apart(views[j].labels),
        fresh_extension(views[0].labels, views[j].labels),
    decreases j,
{
    if j == 0 {
        lemma_fresh_extension_same(views[0].labels);
    } else {
        law_quad_reader_keeps_labels_apart(views, steps, actions, j - 1);
        assert(quad_reader_next(views[j - 1], steps[j - 1], views[j], actions[j - 1]));
        law_fresh_extension_chains(views[0].labels, views[j - 1].labels, views[j].labels);
        law_fresh_extension_keeps_labels_apart(views[j - 1].labels, views[j].labels);
    }
}

} // verus!
