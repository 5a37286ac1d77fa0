//! The audience counter, fed by a background poll of the media server.

use vstd::prelude::*;

verus! {

/// The audience count as last reported; -1 when unknown.
#[derive(Debug, Clone, Copy, PartialEq, Eq, Structural)]
pub struct StreamingInfoInner {
    /// How many clients are watching; -1 when the poll failed.
    pub audiences_num: i32,
}

impl StreamingInfoInner {
    /// A counter that has not been fed yet.
    pub fn new() -> (r: Self)
        ensures
            r.audiences_num == 0,
    {
        Self { audiences_num: 0 }
    }

    /// The current count.
    pub fn get_audiences_num(&self) -> (r: i32)
        ensures
            r == self.audiences_num,
    {
        self.audiences_num
    }

    /// Records a freshly polled count.
    pub fn set_audiences_num(&mut self, num: i32)
        ensures
            final(self).audiences_num == num,
    {
        self.audiences_num = num;
    }

    /// The audience count a poll result maps to: one connection is the
    /// publisher's own.
    pub fn audiences_from_clients(clients_len: usize) -> (r: i32)
        ensures
            r == if clients_len == 0 {
                0
            } else if clients_len - 1 <= i32::MAX {
                (clients_len - 1) as i32
            } else {
                i32::MAX
            },
    {
        if clients_len == 0 {
            0
        } else if clients_len - 1 <= i32::MAX as usize {
            (clients_len - 1) as i32
        } else {
            i32::MAX
        }
    }
}

/// The body of an audience-count reply.
#[derive(Debug, Clone, Copy, PartialEq, Eq, Structural)]
pub struct StreamingInfoReasponse {
    /// How many are watching.
    pub audiences_num: i32,
}

impl StreamingInfoReasponse {
    /// A reply reporting nobody.
    pub fn new() -> (r: Self)
        ensures
            r.audiences_num == 0,
    {
        Self { audiences_num: 0 }
    }

    /// Sets the reported count.
    pub fn with_stream_name(self, num: i32) -> (r: Self)
        ensures
            r.audiences_num == num,
    {
        Self { audiences_num: num }
    }
}

} // verus!
