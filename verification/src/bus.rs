//! The notification bus: process-wide fan-out of domain events.
//!
//! Delivery is fire-and-forget and at-most-once per publish: every subscriber
//! present at publish time receives the notification in its inbox; a late
//! subscriber receives no past events, since subscribing starts from an empty
//! inbox.

use vstd::prelude::*;

use crate::entities::{clone_workspace_nodes, WorkspaceNode, WorkspaceNodeModel};

verus! {

/// The domain events the core publishes.
#[derive(Clone, Copy, Debug, PartialEq, Eq, Structural)]
pub enum FolderEvent {
    /// The merged workspace set changed; observers should re-read.
    WorkspaceListUpdated,
}

/// One published event, carrying the just-merged workspace set as a
/// convenience snapshot (not as the source of truth).
pub struct Notification {
    pub event: FolderEvent,
    pub payload: Vec<WorkspaceNode>,
}

/// Mathematical model of a [`Notification`].
#[verifier::ext_equal]
pub ghost struct NotificationModel {
    pub event: FolderEvent,
    pub payload: Seq<WorkspaceNodeModel>,
}

impl View for Notification {
    type V = NotificationModel;

    open spec fn view(&self) -> NotificationModel {
        NotificationModel {
            event: self.event,
            payload: self.payload@.map_values(|w: WorkspaceNode| w@),
        }
    }
}

/// Copies a notification, preserving its model.
pub fn clone_notification(n: &Notification) -> (r: Notification)
    ensures
        r@ == n@,
{
    let r = Notification { event: n.event, payload: clone_workspace_nodes(&n.payload) };
    proof {
        assert(r@ =~= n@);
    }
    r
}

/// One registered observer and what has been delivered to it.
pub struct Subscriber {
    pub id: u64,
    pub inbox: Vec<Notification>,
}

/// Mathematical model of a [`Subscriber`].
#[verifier::ext_equal]
pub ghost struct SubscriberModel {
    pub id: u64,
    pub inbox: Seq<NotificationModel>,
}

impl View for Subscriber {
    type V = SubscriberModel;

    open spec fn view(&self) -> SubscriberModel {
        SubscriberModel { id: self.id, inbox: self.inbox@.map_values(|n: Notification| n@) }
    }
}

/// The process-wide bus.
pub struct Bus {
    pub subscribers: Vec<Subscriber>,
}

impl View for Bus {
    type V = Seq<SubscriberModel>;

    open spec fn view(&self) -> Seq<SubscriberModel> {
        self.subscribers@.map_values(|s: Subscriber| s@)
    }
}

impl Bus {
    /// A bus with no subscribers.
    pub fn new() -> (b: Bus)
        ensures
            b@ == Seq::<SubscriberModel>::empty(),
    {
        let b = Bus { subscribers: Vec::new() };
        proof {
            assert(b@ =~= Seq::<SubscriberModel>::empty());
        }
        b
    }

    /// Registers an observer under `id`, with an empty inbox: late
    /// subscribers receive no past events.
    pub fn subscribe(&mut self, id: u64)
        ensures
            final(self)@ == old(self)@.push(
                SubscriberModel { id, inbox: Seq::<NotificationModel>::empty() },
            ),
    {
        let sub = Subscriber { id, inbox: Vec::new() };
        proof {
            assert(sub@ =~= (SubscriberModel { id, inbox: Seq::<NotificationModel>::empty() }));
        }
        self.subscribers.push(sub);
        proof {
            assert(self@ =~= old(self)@.push(
                SubscriberModel { id, inbox: Seq::<NotificationModel>::empty() },
            ));
        }
    }

    /// Delivers `n` once to every subscriber present now; no ordering is
    /// promised relative to concurrent publishes, and nothing is persisted
    /// beyond the subscribers' inboxes.
    pub fn publish(&mut self, n: &Notification)
        ensures
            final(self)@.len() == old(self)@.len(),
            forall|i: int|
                0 <= i < old(self)@.len() ==> final(self)@[i] == (SubscriberModel {
                    id: old(self)@[i].id,
                    inbox: old(self)@[i].inbox.push(n@),
                }),
    {
        let mut out: Vec<Subscriber> = Vec::new();
        let mut i: usize = 0;
        while i < self.subscribers.len()
            invariant
                i <= self.subscribers.len(),
                self.subscribers@ == old(self).subscribers@,
                out@.len() == i,
                forall|j: int|
                    0 <= j < i ==> out@[j]@ == (SubscriberModel {
                        id: old(self)@[j].id,
                        inbox: old(self)@[j].inbox.push(n@),
                    }),
            decreases self.subscribers.len() - i,
        {
            let s = &self.subscribers[i];
            let mut inbox = clone_inbox(&s.inbox);
            inbox.push(clone_notification(n));
            let sub = Subscriber { id: s.id, inbox };
            proof {
                assert(old(self)@[i as int] == self.subscribers@[i as int]@);
                assert(sub@.inbox =~= old(self)@[i as int].inbox.push(n@));
            }
            out.push(sub);
            i = i + 1;
        }
        self.subscribers = out;
        proof {
            assert forall|i2: int| 0 <= i2 < old(self)@.len() implies self@[i2] == (SubscriberModel {
                id: old(self)@[i2].id,
                inbox: old(self)@[i2].inbox.push(n@),
            }) by {
                assert(self@[i2] == self.subscribers@[i2]@);
            }
        }
    }
}

/// Copies an inbox, preserving its model.
fn clone_inbox(v: &Vec<Notification>) -> (r: Vec<Notification>)
    ensures
        r@.map_values(|n: Notification| n@) == v@.map_values(|n: Notification| n@),
        r@.len() == v@.len(),
{
    let mut r: Vec<Notification> = Vec::new();
    let mut i: usize = 0;
    while i < v.len()
        invariant
            i <= v.len(),
            r@.len() == i,
            forall|j: int| 0 <= j < i ==> r@[j]@ == v@[j]@,
        decreases v.len() - i,
    {
        r.push(clone_notification(&v[i]));
        i = i + 1;
    }
    proof {
        assert(r@.map_values(|n: Notification| n@) =~= v@.map_values(|n: Notification| n@));
    }
    r
}

} // verus!
