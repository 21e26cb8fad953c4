//! Bounded queues.

use vstd::prelude::*;

verus! {

/// Why a bounded queue did not take an item.
#[derive(Clone, Copy, Debug, PartialEq, Eq, Structural)]
pub enum SendError {
    /// The queue is full.
    Full,
    /// Nobody will receive from the queue any more.
    Disconnected,
}

/// Why a queue gave no item.
#[derive(Clone, Copy, Debug, PartialEq, Eq, Structural)]
pub enum ReceiveError {
    /// The queue is empty at the moment.
    Empty,
    /// The queue is empty and nobody will send to it any more.
    Disconnected,
}

/// A first-in first-out queue that holds a bounded number of items.
#[derive(Debug)]
pub struct Queue<T> {
    /// Items that wait, oldest first.
    pub items: Vec<T>,
    /// Most items that may wait.
    pub capacity: usize,
    /// Whether somebody may still send.
    pub sending: bool,
    /// Whether somebody may still receive.
    pub receiving: bool,
}

/// What a [`Queue`] holds.
#[verifier::ext_equal]
pub struct QueueView<V> {
    pub items: Seq<V>,
    pub capacity: usize,
    pub sending: bool,
    pub receiving: bool,
}

impl<T: DeepView> View for Queue<T> {
    type V = QueueView<T::V>;

    open spec fn view(&self) -> QueueView<T::V> {
        QueueView {
            items: self.items.deep_view(),
            capacity: self.capacity,
            sending: self.sending,
            receiving: self.receiving,
        }
    }
}

impl<T: DeepView> DeepView for Queue<T> {
    type V = QueueView<T::V>;

    open spec fn deep_view(&self) -> QueueView<T::V> {
        self.view()
    }
}

impl<V> QueueView<V> {
    /// A queue without items, with both ends in use.
    pub open spec fn empty(capacity: usize) -> QueueView<V> {
        QueueView { items: Seq::empty(), capacity, sending: true, receiving: true }
    }

    /// Why the queue takes no item, if it takes none.
    pub open spec fn refusal(self) -> Option<SendError> {
        if !self.receiving {
            Some(SendError::Disconnected)
        } else if self.items.len() >= self.capacity {
            Some(SendError::Full)
        } else {
            None
        }
    }

    /// The queue after an item was offered to it.
    pub open spec fn offered(self, item: V) -> QueueView<V> {
        if self.refusal() is None {
            QueueView { items: self.items.push(item), ..self }
        } else {
            self
        }
    }

    /// The queue without its oldest item.
    pub open spec fn taken(self) -> QueueView<V> {
        if self.items.len() > 0 {
            QueueView { items: self.items.drop_first(), ..self }
        } else {
            self
        }
    }

    /// The queue without its items.
    pub open spec fn drained(self) -> QueueView<V> {
        QueueView { items: Seq::empty(), ..self }
    }

    /// The queue once nobody sends to it any more.
    pub open spec fn unsent(self) -> QueueView<V> {
        QueueView { sending: false, ..self }
    }

    /// The queue once nobody receives from it any more: what waited is gone.
    pub open spec fn unreceived(self) -> QueueView<V> {
        QueueView { items: Seq::empty(), receiving: false, ..self }
    }
}

impl<T: DeepView> Queue<T> {
    /// A queue without items.
    pub fn new(capacity: usize) -> (r: Self)
        ensures
            r@ == QueueView::<T::V>::empty(capacity),
    {
        let r = Queue { items: Vec::new(), capacity, sending: true, receiving: true };
        assert(r.items.deep_view() =~= Seq::empty());
        r
    }

    /// Adds an item at the end, unless the queue is full or nobody receives from it.
    pub fn try_send(&mut self, item: T) -> (r: Result<(), SendError>)
        ensures
            final(self)@ == old(self)@.offered(item.deep_view()),
            match r {
                Ok(_) => old(self)@.refusal() is None,
                Err(error) => old(self)@.refusal() == Some(error),
            },
    {
        if !self.receiving {
            return Err(SendError::Disconnected);
        }
        if self.items.len() >= self.capacity {
            return Err(SendError::Full);
        }
        let ghost before = self.items.deep_view();
        self.items.push(item);
        assert(self.items.deep_view() =~= before.push(item.deep_view()));
        Ok(())
    }

    /// Takes the oldest item.
    pub fn try_recv(&mut self) -> (r: Result<T, ReceiveError>)
        ensures
            final(self)@ == old(self)@.taken(),
            match r {
                Ok(item) => old(self)@.items.len() > 0 && item.deep_view() == old(self)@.items[0],
                Err(error) => {
                    &&& old(self)@.items.len() == 0
                    &&& error == if old(self)@.sending {
                        ReceiveError::Empty
                    } else {
                        ReceiveError::Disconnected
                    }
                },
            },
    {
        if self.items.len() == 0 {
            if self.sending {
                return Err(ReceiveError::Empty);
            }
            return Err(ReceiveError::Disconnected);
        }
        let ghost before = self.items.deep_view();
        let item = self.items.remove(0);
        assert(self.items.deep_view() =~= before.drop_first());
        Ok(item)
    }

    /// Takes all items, oldest first.
    pub fn drain(&mut self) -> (r: Vec<T>)
        ensures
            r.deep_view() == old(self)@.items,
            final(self)@ == old(self)@.drained(),
    {
        let mut r: Vec<T> = Vec::new();
        std::mem::swap(&mut r, &mut self.items);
        assert(self.items.deep_view() =~= Seq::empty());
        r
    }

    /// Gives up the sending end.
    pub fn stop_sending(&mut self)
        ensures
            final(self)@ == old(self)@.unsent(),
    {
        self.sending = false;
    }

    /// Gives up the receiving end; what waited is dropped.
    pub fn stop_receiving(&mut self)
        ensures
            final(self)@ == old(self)@.unreceived(),
    {
        self.items = Vec::new();
        assert(self.items.deep_view() =~= Seq::empty());
        self.receiving = false;
    }
}

} // verus!
