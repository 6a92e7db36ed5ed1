//! The tool calls of one turn and what has come of them so far.
use crate::json::{Value, ValueView};
use crate::model::{
    tool_result_message, Message, MessageList, MessageView, ToolCall, ToolCallView,
};
use crate::views::{option_view, seq_view, share};
use std::sync::Arc;
use vstd::prelude::*;

verus! {

/// The tool calls of one turn, each with its result once it has one.
///
/// Calls may come to their results in any order; the results are kept in the order
/// of the calls.
#[derive(Debug)]
pub struct ToolBatch {
    calls: Vec<Arc<ToolCall>>,
    results: Vec<Option<Value>>,
}

/// The model of a [`ToolBatch`].
#[verifier::ext_equal]
pub ghost struct ToolBatchView {
    pub calls: Seq<ToolCallView>,
    pub results: Seq<Option<ValueView>>,
}

/// The models of results that may be missing.
pub open spec fn options_view(results: Seq<Option<Value>>) -> Seq<Option<ValueView>> {
    Seq::new(results.len(), |i: int| option_view(results[i]))
}

impl View for ToolBatch {
    type V = ToolBatchView;

    closed spec fn view(&self) -> ToolBatchView {
        ToolBatchView { calls: seq_view(self.calls@), results: options_view(self.results@) }
    }
}

/// There is a place for the result of each call.
pub open spec fn batch_wf(batch: ToolBatchView) -> bool {
    batch.results.len() == batch.calls.len()
}

/// Calls none of which has a result.
pub open spec fn fresh_batch(calls: Seq<ToolCallView>) -> ToolBatchView {
    ToolBatchView { calls, results: Seq::new(calls.len(), |i: int| None) }
}

/// Call `index` is there and has no result yet.
pub open spec fn is_pending(batch: ToolBatchView, index: int) -> bool {
    0 <= index < batch.results.len() && batch.results[index] is None
}

/// The batch once call `index` has come to `result`. A call comes to a result once;
/// anything else changes nothing.
pub open spec fn settled(batch: ToolBatchView, index: int, result: ValueView) -> ToolBatchView {
    if is_pending(batch, index) {
        ToolBatchView { results: batch.results.update(index, Some(result)), ..batch }
    } else {
        batch
    }
}

/// Every call has its result.
pub open spec fn all_settled(batch: ToolBatchView) -> bool {
    forall|i: int| 0 <= i < batch.results.len() ==> (#[trigger] batch.results[i]) is Some
}

/// The messages that tell the model the results, in the order of the calls.
pub open spec fn result_messages(batch: ToolBatchView) -> Seq<MessageView> {
    Seq::new(
        batch.calls.len(),
        |i: int| tool_result_message(batch.calls[i], batch.results[i]->0),
    )
}

impl ToolBatch {
    #[verifier::type_invariant]
    spec fn one_place_each(self) -> bool {
        self.results@.len() == self.calls@.len()
    }

    /// Calls none of which has a result.
    pub fn new(calls: Vec<Arc<ToolCall>>) -> (res: Self)
        ensures
            res@ == fresh_batch(seq_view(calls@)),
    {
        let mut results: Vec<Option<Value>> = Vec::new();
        let mut i: usize = 0;
        while i < calls.len()
            invariant
                i <= calls@.len(),
                results@.len() == i,
                forall|j: int| 0 <= j < i ==> (#[trigger] results@[j]) is None,
            decreases calls@.len() - i,
        {
            results.push(None);
            i = i + 1;
        }
        let res = ToolBatch { calls, results };
        assert(res@.results =~= fresh_batch(seq_view(calls@)).results);
        res
    }

    /// The number of calls.
    pub fn len(&self) -> (res: usize)
        ensures
            res == self@.calls.len(),
            batch_wf(self@),
    {
        proof {
            use_type_invariant(self);
        }
        self.calls.len()
    }

    /// Call `index`.
    pub fn call(&self, index: usize) -> (res: &Arc<ToolCall>)
        requires
            index < self@.calls.len(),
        ensures
            res@ == self@.calls[index as int],
    {
        &self.calls[index]
    }

    /// Whether call `index` is there and has no result yet.
    pub fn is_pending(&self, index: usize) -> (res: bool)
        ensures
            res == is_pending(self@, index as int),
    {
        if index < self.results.len() {
            self.results[index].is_none()
        } else {
            false
        }
    }

    /// Notes the result of call `index`, if it has none yet.
    pub fn settle(&mut self, index: usize, result: Value)
        ensures
            final(self)@ == settled(old(self)@, index as int, result@),
    {
        proof {
            use_type_invariant(&*self);
        }
        if self.is_pending(index) {
            let mut batch = ToolBatch { calls: Vec::new(), results: Vec::new() };
            std::mem::swap(&mut batch, self);
            let calls = batch.calls;
            let mut results = batch.results;
            results.set(index, Some(result));
            *self = ToolBatch { calls, results };
            assert(self@.results =~= settled(old(self)@, index as int, result@).results);
        }
    }

    /// Whether every call has its result.
    pub fn is_settled(&self) -> (res: bool)
        ensures
            res == all_settled(self@),
    {
        let mut i: usize = 0;
        while i < self.results.len()
            invariant
                i <= self.results@.len(),
                forall|j: int| 0 <= j < i ==> (#[trigger] self.results@[j]) is Some,
            decreases self.results@.len() - i,
        {
            if self.results[i].is_none() {
                assert(self@.results[i as int] is None);
                return false;
            }
            i = i + 1;
        }
        true
    }

    /// Appends the results to the conversation, in the order of the calls.
    pub fn append_to(&self, thread: &mut MessageList)
        requires
            all_settled(self@),
        ensures
            final(thread)@ == old(thread)@ + result_messages(self@),
    {
        proof {
            use_type_invariant(self);
        }
        let ghost messages = result_messages(self@);
        let ghost before = thread@;
        let mut i: usize = 0;
        assert(before + messages.take(0) =~= before);
        while i < self.calls.len()
            invariant
                self.results@.len() == self.calls@.len(),
                all_settled(self@),
                messages == result_messages(self@),
                i <= self.calls@.len(),
                thread@ == before + messages.take(i as int),
            decreases self.calls@.len() - i,
        {
            assert(self@.results[i as int] is Some);
            assert(self@.results[i as int] == option_view(self.results@[i as int]));
            if let Some(result) = &self.results[i] {
                thread.push(Message::tool_result(share(&self.calls[i]), result.clone()));
            }
            assert(thread@ =~= before + messages.take(i + 1));
            i = i + 1;
        }
        assert(messages.take(i as int) =~= messages);
    }
}

} // verus!
