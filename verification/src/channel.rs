//! The kinds of PubSub subscription and the method names that open and
//! close each.

use vstd::prelude::*;

verus! {

/// A kind of PubSub subscription.
#[derive(Clone, Copy, PartialEq, Eq, Structural, Debug)]
pub enum SubscriptionKind {
    Account,
    Block,
    Logs,
    Program,
    Root,
    Signature,
    Slot,
    SlotsUpdates,
    Vote,
}

/// The stem shared by the two method names of a kind.
pub open spec fn stem(k: SubscriptionKind) -> Seq<char> {
    match k {
        SubscriptionKind::Account => "account"@,
        SubscriptionKind::Block => "block"@,
        SubscriptionKind::Logs => "logs"@,
        SubscriptionKind::Program => "program"@,
        SubscriptionKind::Root => "root"@,
        SubscriptionKind::Signature => "signature"@,
        SubscriptionKind::Slot => "slot"@,
        SubscriptionKind::SlotsUpdates => "slotsUpdates"@,
        SubscriptionKind::Vote => "vote"@,
    }
}

impl SubscriptionKind {
    /// The method that opens a subscription of this kind: its stem followed
    /// by `Subscribe`.
    pub fn subscribe_method(&self) -> (m: &'static str)
        ensures
            m@ == stem(*self) + "Subscribe"@,
    {
        proof {
            reveal_strlit("Subscribe");
        }
        match self {
            SubscriptionKind::Account => {
                proof { reveal_strlit("account"); reveal_strlit("accountSubscribe"); }
                assert("accountSubscribe"@ =~= "account"@ + "Subscribe"@);
                "accountSubscribe"
            },
            SubscriptionKind::Block => {
                proof { reveal_strlit("block"); reveal_strlit("blockSubscribe"); }
                assert("blockSubscribe"@ =~= "block"@ + "Subscribe"@);
                "blockSubscribe"
            },
            SubscriptionKind::Logs => {
                proof { reveal_strlit("logs"); reveal_strlit("logsSubscribe"); }
                assert("logsSubscribe"@ =~= "logs"@ + "Subscribe"@);
                "logsSubscribe"
            },
            SubscriptionKind::Program => {
                proof { reveal_strlit("program"); reveal_strlit("programSubscribe"); }
                assert("programSubscribe"@ =~= "program"@ + "Subscribe"@);
                "programSubscribe"
            },
            SubscriptionKind::Root => {
                proof { reveal_strlit("root"); reveal_strlit("rootSubscribe"); }
                assert("rootSubscribe"@ =~= "root"@ + "Subscribe"@);
                "rootSubscribe"
            },
            SubscriptionKind::Signature => {
                proof { reveal_strlit("signature"); reveal_strlit("signatureSubscribe"); }
                assert("signatureSubscribe"@ =~= "signature"@ + "Subscribe"@);
                "signatureSubscribe"
            },
            SubscriptionKind::Slot => {
                proof { reveal_strlit("slot"); reveal_strlit("slotSubscribe"); }
                assert("slotSubscribe"@ =~= "slot"@ + "Subscribe"@);
                "slotSubscribe"
            },
            SubscriptionKind::SlotsUpdates => {
                proof { reveal_strlit("slotsUpdates"); reveal_strlit("slotsUpdatesSubscribe"); }
                assert("slotsUpdatesSubscribe"@ =~= "slotsUpdates"@ + "Subscribe"@);
                "slotsUpdatesSubscribe"
            },
            SubscriptionKind::Vote => {
                proof { reveal_strlit("vote"); reveal_strlit("voteSubscribe"); }
                assert("voteSubscribe"@ =~= "vote"@ + "Subscribe"@);
                "voteSubscribe"
            },
        }
    }
    /// The method that closes a subscription of this kind: its stem followed
    /// by `Unsubscribe`.
    pub fn unsubscribe_method(&self) -> (m: &'static str)
        ensures
            m@ == stem(*self) + "Unsubscribe"@,
    {
        proof {
            reveal_strlit("Unsubscribe");
        }
        match self {
            SubscriptionKind::Account => {
                proof { reveal_strlit("account"); reveal_strlit("accountUnsubscribe"); }
                assert("accountUnsubscribe"@ =~= "account"@ + "Unsubscribe"@);
                "accountUnsubscribe"
            },
            SubscriptionKind::Block => {
                proof { reveal_strlit("block"); reveal_strlit("blockUnsubscribe"); }
                assert("blockUnsubscribe"@ =~= "block"@ + "Unsubscribe"@);
                "blockUnsubscribe"
            },
            SubscriptionKind::Logs => {
                proof { reveal_strlit("logs"); reveal_strlit("logsUnsubscribe"); }
                assert("logsUnsubscribe"@ =~= "logs"@ + "Unsubscribe"@);
                "logsUnsubscribe"
            },
            SubscriptionKind::Program => {
                proof { reveal_strlit("program"); reveal_strlit("programUnsubscribe"); }
                assert("programUnsubscribe"@ =~= "program"@ + "Unsubscribe"@);
                "programUnsubscribe"
            },
            SubscriptionKind::Root => {
                proof { reveal_strlit("root"); reveal_strlit("rootUnsubscribe"); }
                assert("rootUnsubscribe"@ =~= "root"@ + "Unsubscribe"@);
                "rootUnsubscribe"
            },
            SubscriptionKind::Signature => {
                proof { reveal_strlit("signature"); reveal_strlit("signatureUnsubscribe"); }
                assert("signatureUnsubscribe"@ =~= "signature"@ + "Unsubscribe"@);
                "signatureUnsubscribe"
            },
            SubscriptionKind::Slot => {
                proof { reveal_strlit("slot"); reveal_strlit("slotUnsubscribe"); }
                assert("slotUnsubscribe"@ =~= "slot"@ + "Unsubscribe"@);
                "slotUnsubscribe"
            },
            SubscriptionKind::SlotsUpdates => {
                proof { reveal_strlit("slotsUpdates"); reveal_strlit("slotsUpdatesUnsubscribe"); }
                assert("slotsUpdatesUnsubscribe"@ =~= "slotsUpdates"@ + "Unsubscribe"@);
                "slotsUpdatesUnsubscribe"
            },
            SubscriptionKind::Vote => {
                proof { reveal_strlit("vote"); reveal_strlit("voteUnsubscribe"); }
                assert("voteUnsubscribe"@ =~= "vote"@ + "Unsubscribe"@);
                "voteUnsubscribe"
            },
        }
    }
}

} // verus!
