//! The bot's configurable reply texts, with the `{owner}` placeholder
//! substitution used in thread messages.
use vstd::prelude::*;

use crate::html::at_pos;
use crate::textutil::{push_char, to_char_vec};

verus! {

/// Replies of the link submission channel.
#[derive(Clone, Copy, Debug)]
pub struct Message {
    pub already_added: &'static str,
    pub already_pending: &'static str,
    pub previously_removed: &'static str,
}

#[derive(Clone, Copy, Debug)]
pub struct AddLinksMessages {
    pub message: Message,
}

/// Reply of the testing-thread creation hook.
#[derive(Clone, Copy, Debug)]
pub struct ThreadCreate {
    pub welcome: &'static str,
}

/// Replies of the testing-thread tag transitions.
#[derive(Clone, Copy, Debug)]
pub struct ThreadUpdate {
    pub rejected_closing: &'static str,
    pub approved_closing: &'static str,
    pub reopened: &'static str,
}

#[derive(Clone, Copy, Debug)]
pub struct LinkTestingMessages {
    pub thread_create: ThreadCreate,
    pub thread_update: ThreadUpdate,
}

/// All configurable reply texts.
#[derive(Clone, Copy, Debug)]
pub struct MessagesConfig {
    pub link_testing: LinkTestingMessages,
    pub add_links: AddLinksMessages,
}

/// The whole grouped message set.
#[derive(Clone, Copy, Debug)]
pub struct BotMessages {
    pub link_testing: LinkTestingMessages,
    pub add_links: AddLinksMessages,
}

impl Default for Message {
    fn default() -> (r: Message)
        ensures
            r.already_added@ == "Link(s) already in the wiki:"@,
            r.already_pending@ == "Links(s) already in queue:"@,
            r.previously_removed@ == "Links(s) previously removed from the wiki:"@,
    {
        Message {
            already_added: "Link(s) already in the wiki:",
            already_pending: "Links(s) already in queue:",
            previously_removed: "Links(s) previously removed from the wiki:",
        }
    }
}

impl Default for AddLinksMessages {
    fn default() -> (r: AddLinksMessages)
        ensures
            r.message == Message::spec_default(),
    {
        AddLinksMessages { message: Message::preset() }
    }
}

impl Message {
    /// The value `Message::default` returns.
    pub open spec fn spec_default() -> Message {
        Message {
            already_added: "Link(s) already in the wiki:",
            already_pending: "Links(s) already in queue:",
            previously_removed: "Links(s) previously removed from the wiki:",
        }
    }

    /// The default replies, as a plain constructor.
    pub fn preset() -> (r: Message)
        ensures
            r == Message::spec_default(),
    {
        Message {
            already_added: "Link(s) already in the wiki:",
            already_pending: "Links(s) already in queue:",
            previously_removed: "Links(s) previously removed from the wiki:",
        }
    }
}

impl AddLinksMessages {
    /// Reply headline for links already live on the wiki.
    pub fn get_message_already_added(&self) -> (r: &'static str)
        ensures
            r == self.message.already_added,
    {
        self.message.already_added
    }

    /// Reply headline for links already in the submission queue.
    pub fn get_message_already_pending(&self) -> (r: &'static str)
        ensures
            r == self.message.already_pending,
    {
        self.message.already_pending
    }

    /// Reply headline for links previously removed from the wiki.
    pub fn get_message_previously_removed(&self) -> (r: &'static str)
        ensures
            r == self.message.previously_removed,
    {
        self.message.previously_removed
    }
}

impl Default for ThreadCreate {
    fn default() -> (r: ThreadCreate)
        ensures
            r.welcome@
                == "Thread opened by {owner} - join in, share your thoughts, and keep the discussion going!"@,
    {
        ThreadCreate {
            welcome: "Thread opened by {owner} - join in, share your thoughts, and keep the discussion going!",
        }
    }
}

impl Default for ThreadUpdate {
    fn default() -> (r: ThreadUpdate)
        ensures
            r.rejected_closing@ == "{owner}: thread closed as rejected."@,
            r.approved_closing@
                == "{owner}: thread closed as approved; link(s) will be added to the wiki."@,
            r.reopened@
                == "{owner}: your previously rejected thread has been reopened; feel free to continue discussing and defending the link(s) you were testing."@,
    {
        ThreadUpdate {
            rejected_closing: "{owner}: thread closed as rejected.",
            approved_closing: "{owner}: thread closed as approved; link(s) will be added to the wiki.",
            reopened: "{owner}: your previously rejected thread has been reopened; feel free to continue discussing and defending the link(s) you were testing.",
        }
    }
}

/// The template with every `{owner}` placeholder replaced, from position
/// `i` on.
pub open spec fn fill_owner_from(s: Seq<char>, rep: Seq<char>, i: int) -> Seq<char>
    decreases s.len() - i
        when 0 <= i
        via fill_owner_decreases
{
    if i >= s.len() {
        Seq::empty()
    } else if at_pos(s, i, "{owner}"@) {
        rep + fill_owner_from(s, rep, i + 7)
    } else {
        seq![s[i]] + fill_owner_from(s, rep, i + 1)
    }
}

#[via_fn]
proof fn fill_owner_decreases(s: Seq<char>, rep: Seq<char>, i: int) {
    reveal_strlit("{owner}");
}

/// What filling the `{owner}` placeholder yields.
pub open spec fn fill_owner_spec(s: Seq<char>, rep: Seq<char>) -> Seq<char> {
    fill_owner_from(s, rep, 0)
}

/// Substitutes every `{owner}` placeholder of a template with the owner's
/// mention text.
pub fn fill_owner(template: &str, owner: &str) -> (r: String)
    ensures
        r@ == fill_owner_spec(template@, owner@),
{
    proof {
        reveal_strlit("{owner}");
    }
    let v = to_char_vec(template);
    let n = v.len();
    let mut out = String::new();
    let mut i: usize = 0;
    while i < n
        invariant
            0 <= i <= n,
            n == v@.len(),
            v@ == template@,
            fill_owner_from(v@, owner@, 0) == out@ + fill_owner_from(v@, owner@, i as int),
        decreases n - i,
    {
        proof {
            reveal_strlit("{owner}");
        }
        let hit = crate::html::match_at_pub(&v, i, "{owner}");
        if hit {
            out.append(owner);
            i = i + 7;
        } else {
            push_char(&mut out, v[i]);
            i = i + 1;
        }
        assert(fill_owner_from(v@, owner@, 0) =~= out@ + fill_owner_from(v@, owner@, i as int));
    }
    proof {
        assert(fill_owner_from(v@, owner@, n as int) =~= Seq::<char>::empty());
        assert(out@ =~= fill_owner_from(v@, owner@, 0));
    }
    out
}

impl LinkTestingMessages {
    /// The thread-creation welcome, with the owner substituted.
    pub fn get_thread_create_welcome(&self, owner: &str) -> (r: String)
        ensures
            r@ == fill_owner_spec(self.thread_create.welcome@, owner@),
    {
        fill_owner(self.thread_create.welcome, owner)
    }

    /// The rejected-closing reply, with the owner substituted.
    pub fn get_thread_update_rejected(&self, owner: &str) -> (r: String)
        ensures
            r@ == fill_owner_spec(self.thread_update.rejected_closing@, owner@),
    {
        fill_owner(self.thread_update.rejected_closing, owner)
    }

    /// The approved-closing reply, with the owner substituted.
    pub fn get_thread_update_approved(&self, owner: &str) -> (r: String)
        ensures
            r@ == fill_owner_spec(self.thread_update.approved_closing@, owner@),
    {
        fill_owner(self.thread_update.approved_closing, owner)
    }

    /// The reopened reply, with the owner substituted.
    pub fn get_thread_update_reopened(&self, owner: &str) -> (r: String)
        ensures
            r@ == fill_owner_spec(self.thread_update.reopened@, owner@),
    {
        fill_owner(self.thread_update.reopened, owner)
    }
}

impl Default for LinkTestingMessages {
    fn default() -> (r: LinkTestingMessages)
        ensures
            r.thread_create.welcome@
                == "Thread opened by {owner} - join in, share your thoughts, and keep the discussion going!"@,
            r.thread_update.rejected_closing@ == "{owner}: thread closed as rejected."@,
    {
        LinkTestingMessages {
            thread_create: ThreadCreate {
                welcome: "Thread opened by {owner} - join in, share your thoughts, and keep the discussion going!",
            },
            thread_update: ThreadUpdate {
                rejected_closing: "{owner}: thread closed as rejected.",
                approved_closing: "{owner}: thread closed as approved; link(s) will be added to the wiki.",
                reopened: "{owner}: your previously rejected thread has been reopened; feel free to continue discussing and defending the link(s) you were testing.",
            },
        }
    }
}

impl Default for MessagesConfig {
    fn default() -> (r: MessagesConfig)
        ensures
            r.add_links.message == Message::spec_default(),
    {
        MessagesConfig {
            link_testing: LinkTestingMessages::default(),
            add_links: AddLinksMessages::default(),
        }
    }
}

impl Default for BotMessages {
    fn default() -> (r: BotMessages)
        ensures
            r.add_links.message == Message::spec_default(),
    {
        BotMessages {
            link_testing: LinkTestingMessages::default(),
            add_links: AddLinksMessages::default(),
        }
    }
}

} // verus!
