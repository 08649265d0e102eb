//! The session's starting state, and the bookkeeping for each stanza that
//! leaves the outbox.
use vstd::prelude::*;
use std::collections::VecDeque;
use crate::util::strs::str_eq;
use crate::util::xml::{Element, elem};
use crate::xmpp::modules::account::AccountManager;
use crate::xmpp::modules::adhoc::AdhocManager;
use crate::xmpp::modules::avatar::AvatarManager;
use crate::xmpp::modules::blocking::BlockingManager;
use crate::xmpp::modules::bookmarks::BookmarkManager;
use crate::xmpp::modules::catchup::CatchupManager;
use crate::xmpp::modules::conversation_sync::ConversationSyncManager;
use crate::xmpp::modules::disco::{DiscoIdentity, DiscoManager};
use crate::xmpp::modules::file_upload::FileUploadManager;
use crate::xmpp::modules::ignore::IgnoreManager;
use crate::xmpp::modules::mam::MamManager;
use crate::xmpp::modules::muc::MucManager;
use crate::xmpp::modules::muc_admin::MucAdminManager;
use crate::xmpp::modules::muc_config::MucConfigManager;
use crate::xmpp::modules::muc_voice::MucVoiceManager;
use crate::xmpp::modules::omemo::bundle::OmemoManager;
use crate::xmpp::modules::presence_machine::{PresenceMachine, initial_model};
use crate::xmpp::modules::push::PushManager;
use crate::xmpp::modules::stream_mgmt::{NS_SM, StreamMgmt, StreamMgmtView, after_sent, fresh_stream};
use crate::xmpp::modules::sync::SyncOrchestrator;
use crate::xmpp::modules::vcard_edit::VCardEditManager;
use crate::xmpp::{XmppEvent, XmppEventView, views};
use crate::util::xml_text::{stanza_text, stanza_xml};
use super::SessionState;
use super::dispatch::is_sm_nonza;

verus! {

/// The node this client announces in its capabilities.
pub const CLIENT_NODE: &'static str = "https://github.com/rexisce";

impl SessionState {
    /// A fresh session: every manager empty, the stream counters at zero, and
    /// the client announced as a `client/pc` named `rexisce` supporting MAM
    /// and carbons. `omemo` is the encryption manager where a key store is
    /// available.
    pub fn new(omemo: Option<OmemoManager>) -> (r: Self)
        ensures
            r.sm@ == fresh_stream(),
            r.blocking.blocked() == Set::<Seq<char>>::empty(),
            r.mam.pending() == Map::<Seq<char>, crate::xmpp::modules::mam::MamQuery>::empty(),
            r.presence.model() == initial_model(),
            r.disco.own_caps().node == CLIENT_NODE@,
            r.muc.rooms() == Map::<Seq<char>, crate::xmpp::modules::muc::MucRoomView>::empty(),
            r.bookmarks.bookmarks() == Seq::<crate::xmpp::modules::bookmarks::BookmarkView>::empty(),
            r.sync.pending() == Map::<Seq<char>, Seq<char>>::empty(),
            r.omemo == omemo,
    {
        let identities = [DiscoIdentity { category: "client".to_owned(), kind: "pc".to_owned(), name: "rexisce".to_owned() }];
        let features = ["urn:xmpp:mam:2", "urn:xmpp:carbons:2"];
        SessionState {
            sm: StreamMgmt::new(),
            blocking: BlockingManager::new(),
            mam: MamManager::new(),
            catchup: CatchupManager::new(),
            presence: PresenceMachine::new(),
            disco: DiscoManager::new(CLIENT_NODE, &identities, &features),
            file_upload: FileUploadManager::new(),
            avatar: AvatarManager::new(),
            muc: MucManager::new(),
            muc_config: MucConfigManager::new(),
            bookmarks: BookmarkManager::new(),
            push: PushManager::new(),
            vcard_edit: VCardEditManager::new(),
            adhoc: AdhocManager::new(),
            muc_admin: MucAdminManager::new(),
            muc_voice: MucVoiceManager::new(),
            ignore: IgnoreManager::new(),
            conv_sync: ConversationSyncManager::new(),
            sync: SyncOrchestrator::new(),
            account: AccountManager::new(),
            omemo,
        }
    }
}

/// The stream state after `stanza` left: a counted stanza joins the queue
/// awaiting acknowledgement; the `<a/>` and `<r/>` nonzas do not.
pub open spec fn sm_after_outgoing(s: StreamMgmtView, stanza: crate::util::xml::ElementView) -> StreamMgmtView {
    if is_sm_nonza(stanza) { s } else { after_sent(s, stanza) }
}

/// Bookkeeping for `stanza` as it is sent: stream management records it,
/// and whenever the queue awaiting acknowledgement reaches a positive
/// multiple of five, an `<r/>` request is queued behind the outbox. The
/// result is the stanza's entry for the debug console.
pub fn note_outgoing(sm: &mut StreamMgmt, stanza: &Element, outbox: &mut VecDeque<Element>) -> (ev: XmppEvent)
    requires
        !is_sm_nonza(stanza@) ==> old(sm)@.stanzas_sent < u32::MAX,
    ensures
        ev@ == (XmppEventView::ConsoleEntry { direction: "sent"@, xml: stanza_text(stanza@) }),
        final(sm)@ == sm_after_outgoing(old(sm)@, stanza@),
        views(final(outbox)@) == if final(sm)@.unacked.len() > 0 && final(sm)@.unacked.len() % 5 == 0 {
            views(old(outbox)@).push(elem("r"@, NS_SM@))
        } else {
            views(old(outbox)@)
        },
{
    let nonza = str_eq(stanza.ns(), NS_SM) && (str_eq(stanza.name(), "a") || str_eq(stanza.name(), "r"));
    if !nonza {
        sm.on_stanza_sent(stanza.clone());
    }
    let n = sm.pending_count();
    if n % 5 == 0 && n > 0 {
        let ghost before = outbox@;
        let r = sm.build_request();
        let ghost rv = r@;
        outbox.push_back(r);
        assert(views(outbox@) =~= views(before).push(rv));
    }
    XmppEvent::ConsoleEntry { direction: "sent".to_owned(), xml: stanza_xml(stanza) }
}

} // verus!
