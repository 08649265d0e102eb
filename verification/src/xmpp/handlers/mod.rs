//! What the engine does with each stanza the server sends: the events it
//! reports to the user interface and the stanzas it sends back.
pub mod command;
pub mod dispatch;
pub mod iq;
pub mod message;
pub mod omemo;
pub mod outgoing;

use vstd::prelude::*;
use crate::xmpp::modules::account::AccountManager;
use crate::xmpp::modules::adhoc::AdhocManager;
use crate::xmpp::modules::avatar::AvatarManager;
use crate::xmpp::modules::blocking::BlockingManager;
use crate::xmpp::modules::bookmarks::BookmarkManager;
use crate::xmpp::modules::catchup::CatchupManager;
use crate::xmpp::modules::conversation_sync::ConversationSyncManager;
use crate::xmpp::modules::disco::DiscoManager;
use crate::xmpp::modules::file_upload::FileUploadManager;
use crate::xmpp::modules::ignore::IgnoreManager;
use crate::xmpp::modules::mam::MamManager;
use crate::xmpp::modules::muc::MucManager;
use crate::xmpp::modules::muc_admin::MucAdminManager;
use crate::xmpp::modules::muc_config::MucConfigManager;
use crate::xmpp::modules::muc_voice::MucVoiceManager;
use crate::xmpp::modules::omemo::bundle::OmemoManager;
use crate::xmpp::modules::presence_machine::PresenceMachine;
use crate::xmpp::modules::push::PushManager;
use crate::xmpp::modules::stream_mgmt::StreamMgmt;
use crate::xmpp::modules::sync::SyncOrchestrator;
use crate::xmpp::modules::vcard_edit::VCardEditManager;

verus! {

/// Delivery receipts (XEP-0184).
pub const NS_RECEIPTS: &'static str = "urn:xmpp:receipts";

/// Chat markers (XEP-0333).
pub const NS_CHAT_MARKERS: &'static str = "urn:xmpp:chat-markers:0";

/// Chat state notifications (XEP-0085), as this client names them.
pub const NS_CHATSTATES: &'static str = "jabber:x:chatstates";

/// The protocol state of one session: one manager per extension.
pub struct SessionState {
    pub sm: StreamMgmt,
    pub blocking: BlockingManager,
    pub mam: MamManager,
    pub catchup: CatchupManager,
    pub presence: PresenceMachine,
    pub disco: DiscoManager,
    pub file_upload: FileUploadManager,
    pub avatar: AvatarManager,
    pub muc: MucManager,
    pub muc_config: MucConfigManager,
    pub bookmarks: BookmarkManager,
    pub push: PushManager,
    pub vcard_edit: VCardEditManager,
    pub adhoc: AdhocManager,
    pub muc_admin: MucAdminManager,
    pub muc_voice: MucVoiceManager,
    pub ignore: IgnoreManager,
    pub conv_sync: ConversationSyncManager,
    pub sync: SyncOrchestrator,
    pub account: AccountManager,
    pub omemo: Option<OmemoManager>,
}

} // verus!
