//! The XMPP side of the client: connection set-up, protocol modules and the
//! data they exchange with the user interface.
pub mod connection;
pub mod engine;
pub mod handlers;
pub mod modules;
pub mod multi_engine;

use vstd::prelude::*;
use crate::util::xml::{Element, ElementView};
use crate::xmpp::modules::adhoc::{CommandResponse, CommandResponseView};
use crate::xmpp::modules::bob::{BobData, BobDataView};
use crate::xmpp::modules::bookmarks::{Bookmark, BookmarkView};
use crate::xmpp::modules::conversation_sync::{SyncedConversation, SyncedConversationView};
use crate::xmpp::modules::disco::{DiscoItem, DiscoItemView};
use crate::xmpp::modules::muc_config::{MucRoomConfig, MucRoomConfigView};
use crate::xmpp::modules::stickers::{StickerPack, StickerPackView};
use crate::xmpp::modules::vcard_edit::{VCardFields, VCardFieldsView};
use crate::xmpp::connection::ConnectConfig;
use crate::xmpp::modules::adhoc::DataField;
use crate::xmpp::modules::muc_admin::AffiliationAction;
use crate::xmpp::modules::presence_machine::PresenceStatus;
use crate::xmpp::modules::stickers::Sticker;

verus! {

/// Opaque identifier for a configured XMPP account: the bare JID.
#[derive(Debug, Clone, PartialEq, Eq, Hash)]
pub struct AccountId(pub String);

impl AccountId {
    pub fn new(jid: String) -> (r: Self)
        ensures
            r.0@ == jid@,
    {
        AccountId(jid)
    }

    pub fn as_str(&self) -> (r: &str)
        ensures
            r@ == self.0@,
    {
        self.0.as_str()
    }

    /// The JID, as the account is shown.
    pub fn to_string(&self) -> (r: String)
        ensures
            r@ == self.0@,
    {
        self.0.clone()
    }
}

/// A contact from the user's roster (RFC 6121).
#[derive(Debug, Clone)]
pub struct RosterContact {
    pub jid: String,
    pub name: Option<String>,
    pub subscription: String,
}

pub struct RosterContactView {
    pub jid: Seq<char>,
    pub name: Option<Seq<char>>,
    pub subscription: Seq<char>,
}

impl View for RosterContact {
    type V = RosterContactView;

    open spec fn view(&self) -> RosterContactView {
        RosterContactView { jid: self.jid@, name: opt_str(self.name), subscription: self.subscription@ }
    }
}

/// A chat message received from the server.
#[derive(Debug, Clone)]
pub struct IncomingMessage {
    pub id: String,
    pub from: String,
    pub body: String,
    /// True when this message was retrieved from the archive.
    pub is_historical: bool,
    /// True when this message was decrypted via OMEMO.
    pub is_encrypted: bool,
    /// True when the sender device is trusted.
    pub is_trusted: bool,
}

pub struct IncomingMessageView {
    pub id: Seq<char>,
    pub from: Seq<char>,
    pub body: Seq<char>,
    pub is_historical: bool,
    pub is_encrypted: bool,
    pub is_trusted: bool,
}

impl View for IncomingMessage {
    type V = IncomingMessageView;

    open spec fn view(&self) -> IncomingMessageView {
        IncomingMessageView {
            id: self.id@,
            from: self.from@,
            body: self.body@,
            is_historical: self.is_historical,
            is_encrypted: self.is_encrypted,
            is_trusted: self.is_trusted,
        }
    }
}

/// A plain received message: neither archived nor encrypted.
pub open spec fn live_message(id: Seq<char>, from: Seq<char>, body: Seq<char>) -> IncomingMessageView {
    IncomingMessageView { id, from, body, is_historical: false, is_encrypted: false, is_trusted: false }
}

pub open spec fn opt_str(o: Option<String>) -> Option<Seq<char>> {
    match o {
        Some(s) => Some(s@),
        None => None,
    }
}

/// The views of a sequence of values, in order.
pub open spec fn views<T: View>(s: Seq<T>) -> Seq<T::V> {
    Seq::new(s.len(), |i: int| s[i]@)
}

pub open spec fn string_pairs(s: Seq<(String, String)>) -> Seq<(Seq<char>, Seq<char>)> {
    Seq::new(s.len(), |i: int| (s[i].0@, s[i].1@))
}

/// What the engine reports to the user interface.
#[derive(Debug, Clone)]
pub enum XmppEvent {
    Connected { bound_jid: String },
    Disconnected { reason: String },
    Reconnecting { attempt: u32 },
    RosterReceived(Vec<RosterContact>),
    MessageReceived(IncomingMessage),
    PresenceUpdated { jid: String, available: bool },
    /// The archive catch-up of one conversation finished, with `fetched` messages.
    CatchupFinished { conversation_jid: String, fetched: usize },
    PeerTyping { jid: String, composing: bool },
    UploadSlotReceived { put_url: String, get_url: String, headers: Vec<(String, String)> },
    UploadSlotError { iq_id: String },
    AvatarReceived { jid: String, png_bytes: Vec<u8> },
    /// A raw stanza for the debug console.
    ConsoleEntry { direction: String, xml: String },
    ReactionReceived { msg_id: String, from: String, emojis: Vec<String> },
    VCardReceived { jid: String, name: Option<String>, email: Option<String> },
    BookmarksReceived(Vec<Bookmark>),
    AvatarUpdated { jid: String, data: Vec<u8> },
    MessageDelivered { id: String, from: String },
    MessageRead { id: String, from: String },
    MamPrefsReceived { default_mode: String },
    RoomConfigFormReceived { room_jid: String, config: MucRoomConfig },
    RoomConfigured { room_jid: String },
    CorrectionReceived { original_id: String, _from_jid: String, new_body: String },
    RetractionReceived { _origin_id: String, _from_jid: String },
    MessageModerated { room_jid: String, message_id: String },
    RoomInvitationReceived { room_jid: String, from_jid: String, reason: Option<String> },
    RoomListReceived(Vec<DiscoItem>),
    RegistrationFormReceived { _server: String, _form: Element },
    RegistrationSuccess,
    RegistrationFailure(String),
    OwnVCardReceived(VCardFields),
    OwnVCardSaved,
    AdhocCommandResult(CommandResponse),
    AdhocCommandsDiscovered { from_jid: String, commands: Vec<(String, String)> },
    BobReceived(BobData),
    AccountSwitched(AccountId),
    OmemoEnabled { device_id: u32 },
    OmemoDeviceListReceived { jid: String, devices: Vec<u32> },
    OmemoNewDeviceDetected { jid: String, device_id: u32 },
    OmemoKeyExchangeNeeded { jid: String },
    StickerPackReceived(StickerPack),
    IgnoreListReceived { room_jid: String, ignored: Vec<String> },
    ConversationsReceived(Vec<SyncedConversation>),
    PasswordChanged { success: bool },
    AccountDeleted { success: bool },
}

pub enum XmppEventView {
    Connected { bound_jid: Seq<char> },
    Disconnected { reason: Seq<char> },
    Reconnecting { attempt: u32 },
    RosterReceived(Seq<RosterContactView>),
    MessageReceived(IncomingMessageView),
    PresenceUpdated { jid: Seq<char>, available: bool },
    CatchupFinished { conversation_jid: Seq<char>, fetched: usize },
    PeerTyping { jid: Seq<char>, composing: bool },
    UploadSlotReceived { put_url: Seq<char>, get_url: Seq<char>, headers: Seq<(Seq<char>, Seq<char>)> },
    UploadSlotError { iq_id: Seq<char> },
    AvatarReceived { jid: Seq<char>, png_bytes: Seq<u8> },
    ConsoleEntry { direction: Seq<char>, xml: Seq<char> },
    ReactionReceived { msg_id: Seq<char>, from: Seq<char>, emojis: Seq<Seq<char>> },
    VCardReceived { jid: Seq<char>, name: Option<Seq<char>>, email: Option<Seq<char>> },
    BookmarksReceived(Seq<BookmarkView>),
    AvatarUpdated { jid: Seq<char>, data: Seq<u8> },
    MessageDelivered { id: Seq<char>, from: Seq<char> },
    MessageRead { id: Seq<char>, from: Seq<char> },
    MamPrefsReceived { default_mode: Seq<char> },
    RoomConfigFormReceived { room_jid: Seq<char>, config: MucRoomConfigView },
    RoomConfigured { room_jid: Seq<char> },
    CorrectionReceived { original_id: Seq<char>, _from_jid: Seq<char>, new_body: Seq<char> },
    RetractionReceived { _origin_id: Seq<char>, _from_jid: Seq<char> },
    MessageModerated { room_jid: Seq<char>, message_id: Seq<char> },
    RoomInvitationReceived { room_jid: Seq<char>, from_jid: Seq<char>, reason: Option<Seq<char>> },
    RoomListReceived(Seq<DiscoItemView>),
    RegistrationFormReceived { _server: Seq<char>, _form: ElementView },
    RegistrationSuccess,
    RegistrationFailure(Seq<char>),
    OwnVCardReceived(VCardFieldsView),
    OwnVCardSaved,
    AdhocCommandResult(CommandResponseView),
    AdhocCommandsDiscovered { from_jid: Seq<char>, commands: Seq<(Seq<char>, Seq<char>)> },
    BobReceived(BobDataView),
    AccountSwitched(Seq<char>),
    OmemoEnabled { device_id: u32 },
    OmemoDeviceListReceived { jid: Seq<char>, devices: Seq<u32> },
    OmemoNewDeviceDetected { jid: Seq<char>, device_id: u32 },
    OmemoKeyExchangeNeeded { jid: Seq<char> },
    StickerPackReceived(StickerPackView),
    IgnoreListReceived { room_jid: Seq<char>, ignored: Seq<Seq<char>> },
    ConversationsReceived(Seq<SyncedConversationView>),
    PasswordChanged { success: bool },
    AccountDeleted { success: bool },
}

impl View for XmppEvent {
    type V = XmppEventView;

    open spec fn view(&self) -> XmppEventView {
        match self {
            XmppEvent::Connected { bound_jid } => XmppEventView::Connected { bound_jid: bound_jid@ },
            XmppEvent::Disconnected { reason } => XmppEventView::Disconnected { reason: reason@ },
            XmppEvent::Reconnecting { attempt } => XmppEventView::Reconnecting { attempt: *attempt },
            XmppEvent::RosterReceived(v) => XmppEventView::RosterReceived(views(v@)),
            XmppEvent::MessageReceived(m) => XmppEventView::MessageReceived(m@),
            XmppEvent::PresenceUpdated { jid, available } => XmppEventView::PresenceUpdated { jid: jid@, available: *available },
            XmppEvent::CatchupFinished { conversation_jid, fetched } => XmppEventView::CatchupFinished {
                conversation_jid: conversation_jid@,
                fetched: *fetched,
            },
            XmppEvent::PeerTyping { jid, composing } => XmppEventView::PeerTyping { jid: jid@, composing: *composing },
            XmppEvent::UploadSlotReceived { put_url, get_url, headers } => XmppEventView::UploadSlotReceived {
                put_url: put_url@,
                get_url: get_url@,
                headers: string_pairs(headers@),
            },
            XmppEvent::UploadSlotError { iq_id } => XmppEventView::UploadSlotError { iq_id: iq_id@ },
            XmppEvent::AvatarReceived { jid, png_bytes } => XmppEventView::AvatarReceived { jid: jid@, png_bytes: png_bytes@ },
            XmppEvent::ConsoleEntry { direction, xml } => XmppEventView::ConsoleEntry { direction: direction@, xml: xml@ },
            XmppEvent::ReactionReceived { msg_id, from, emojis } => XmppEventView::ReactionReceived {
                msg_id: msg_id@,
                from: from@,
                emojis: views(emojis@),
            },
            XmppEvent::VCardReceived { jid, name, email } => XmppEventView::VCardReceived {
                jid: jid@,
                name: opt_str(*name),
                email: opt_str(*email),
            },
            XmppEvent::BookmarksReceived(v) => XmppEventView::BookmarksReceived(views(v@)),
            XmppEvent::AvatarUpdated { jid, data } => XmppEventView::AvatarUpdated { jid: jid@, data: data@ },
            XmppEvent::MessageDelivered { id, from } => XmppEventView::MessageDelivered { id: id@, from: from@ },
            XmppEvent::MessageRead { id, from } => XmppEventView::MessageRead { id: id@, from: from@ },
            XmppEvent::MamPrefsReceived { default_mode } => XmppEventView::MamPrefsReceived { default_mode: default_mode@ },
            XmppEvent::RoomConfigFormReceived { room_jid, config } => XmppEventView::RoomConfigFormReceived {
                room_jid: room_jid@,
                config: config@,
            },
            XmppEvent::RoomConfigured { room_jid } => XmppEventView::RoomConfigured { room_jid: room_jid@ },
            XmppEvent::CorrectionReceived { original_id, _from_jid, new_body } => XmppEventView::CorrectionReceived {
                original_id: original_id@,
                _from_jid: _from_jid@,
                new_body: new_body@,
            },
            XmppEvent::RetractionReceived { _origin_id, _from_jid } => XmppEventView::RetractionReceived {
                _origin_id: _origin_id@,
                _from_jid: _from_jid@,
            },
            XmppEvent::MessageModerated { room_jid, message_id } => XmppEventView::MessageModerated {
                room_jid: room_jid@,
                message_id: message_id@,
            },
            XmppEvent::RoomInvitationReceived { room_jid, from_jid, reason } => XmppEventView::RoomInvitationReceived {
                room_jid: room_jid@,
                from_jid: from_jid@,
                reason: opt_str(*reason),
            },
            XmppEvent::RoomListReceived(v) => XmppEventView::RoomListReceived(views(v@)),
            XmppEvent::RegistrationFormReceived { _server, _form } => XmppEventView::RegistrationFormReceived {
                _server: _server@,
                _form: _form@,
            },
            XmppEvent::RegistrationSuccess => XmppEventView::RegistrationSuccess,
            XmppEvent::RegistrationFailure(r) => XmppEventView::RegistrationFailure(r@),
            XmppEvent::OwnVCardReceived(f) => XmppEventView::OwnVCardReceived(f@),
            XmppEvent::OwnVCardSaved => XmppEventView::OwnVCardSaved,
            XmppEvent::AdhocCommandResult(c) => XmppEventView::AdhocCommandResult(c@),
            XmppEvent::AdhocCommandsDiscovered { from_jid, commands } => XmppEventView::AdhocCommandsDiscovered {
                from_jid: from_jid@,
                commands: string_pairs(commands@),
            },
            XmppEvent::BobReceived(b) => XmppEventView::BobReceived(b@),
            XmppEvent::AccountSwitched(a) => XmppEventView::AccountSwitched(a.0@),
            XmppEvent::OmemoEnabled { device_id } => XmppEventView::OmemoEnabled { device_id: *device_id },
            XmppEvent::OmemoDeviceListReceived { jid, devices } => XmppEventView::OmemoDeviceListReceived {
                jid: jid@,
                devices: devices@,
            },
            XmppEvent::OmemoNewDeviceDetected { jid, device_id } => XmppEventView::OmemoNewDeviceDetected {
                jid: jid@,
                device_id: *device_id,
            },
            XmppEvent::OmemoKeyExchangeNeeded { jid } => XmppEventView::OmemoKeyExchangeNeeded { jid: jid@ },
            XmppEvent::StickerPackReceived(p) => XmppEventView::StickerPackReceived(p@),
            XmppEvent::IgnoreListReceived { room_jid, ignored } => XmppEventView::IgnoreListReceived {
                room_jid: room_jid@,
                ignored: views(ignored@),
            },
            XmppEvent::ConversationsReceived(v) => XmppEventView::ConversationsReceived(views(v@)),
            XmppEvent::PasswordChanged { success } => XmppEventView::PasswordChanged { success: *success },
            XmppEvent::AccountDeleted { success } => XmppEventView::AccountDeleted { success: *success },
        }
    }
}

/// What the user interface asks of the engine.
#[derive(Debug)]
pub enum XmppCommand {
    /// Start (or restart) a connection.
    Connect(ConnectConfig),
    SetPresence(PresenceStatus),
    SendMessage { to: String, body: String, id: String },
    SendChatState { to: String, composing: bool },
    AddContact(String),
    RemoveContact(String),
    RenameContact { jid: String, name: String },
    Disconnect,
    RequestUploadSlot { filename: String, size: u64, mime: String },
    FetchAvatar(String),
    SetAvatar { data: Vec<u8>, mime_type: String },
    BlockJid(String),
    UnblockJid(String),
    SendReaction { to: String, msg_id: String, emojis: Vec<String> },
    SendCorrection { to: String, original_id: String, new_body: String },
    SendRetraction { to: String, origin_id: String },
    FetchVCard(String),
    FetchHistory { jid: String, before_id: Option<String> },
    JoinRoom { jid: String, nick: String },
    LeaveRoom(String),
    SendDisplayed { to: String, id: String },
    SetMamPrefs { default_mode: String },
    UserIdle,
    UserExtendedIdle,
    UserActive,
    SendRoomInvitation { room: String, user: String, reason: Option<String> },
    FetchRoomList,
    EnablePush { service_jid: String },
    DisablePush { service_jid: String },
    DisableAllPush,
    CreateRoom { local: String, service: String, nick: String },
    ConfigureRoom { room_jid: String, config: MucRoomConfig },
    ModerateMessage { room_jid: String, message_id: String, reason: Option<String> },
    KickUser { room_jid: String, nick: String },
    BanUser { room_jid: String, jid: String },
    SetAffiliation { room_jid: String, action: AffiliationAction },
    GrantVoice { room_jid: String, nick: String },
    RevokeVoice { room_jid: String, nick: String },
    GrantModerator { room_jid: String, nick: String },
    RequestVoice { room_jid: String, nick: String },
    ApproveVoice { room_jid: String, nick: String },
    DeclineVoice { room_jid: String, nick: String },
    Register(ConnectConfig),
    SubmitRegistration { server: String, form: Element },
    FetchOwnVCard,
    SetOwnVCard(VCardFields),
    ExecuteAdhocCommand { to_jid: String, node: String },
    ContinueAdhocCommand { to_jid: String, node: String, session_id: String, fields: Vec<DataField> },
    CancelAdhocCommand { to_jid: String, node: String, session_id: String },
    DiscoverAdhocCommands { target_jid: String },
    ReportSpam { jid: String, reason: Option<String> },
    RequestBob { cid: String, from: String },
    SwitchAccount(AccountId),
    RemoveAccount(AccountId),
    ConnectAccount(AccountId),
    DisconnectAccount(AccountId),
    OmemoEnable,
    OmemoEncryptMessage { to: String, body: String, id: String },
    OmemoTrustDevice { jid: String, device_id: u32 },
    SendSticker { to: String, pack_id: String, sticker: Sticker },
    IgnoreUser { room_jid: String, user_jid: String },
    UnignoreUser { room_jid: String, user_jid: String },
    /// Asks for the ignore list of a room. The ignore list is kept locally
    /// and no server request for it is defined, so the command sends
    /// nothing and changes nothing.
    FetchIgnoreList { room_jid: String },
    SyncConversations(Vec<SyncedConversation>),
    FetchConversations,
    ChangePassword { username: String, new_password: String },
    DeleteAccount,
    StartMamSync(Vec<(String, Option<String>)>),
}

} // verus!
