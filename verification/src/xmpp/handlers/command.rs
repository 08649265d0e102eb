//! What the engine does with each command from the user interface: the
//! stanzas it queues and the protocol state it updates.
use vstd::prelude::*;
use std::collections::VecDeque;
use crate::util::codec::{base64_encoded, sha1_digest};
use crate::util::ext::is_uuid_v4_text;
use crate::util::strs::concat;
use crate::util::xml::{Element, ElementView, elem};
use crate::xmpp::engine::{
    account_domain, account_domain_of, chat_message, chat_state_message, displayed_message, hex_lower, hex_text, make_chat_state_message,
    make_displayed_message, make_mam_prefs_set, make_message, make_moderation_message, make_roster_set, mam_prefs_set,
    moderation_message, normalized_jid, opt_str, parsed_jid, roster_set,
};
use crate::xmpp::modules::account::{change_password_query, register_set};
use crate::xmpp::modules::adhoc::{NS_ADHOC, command_iq, fields_view, submit_form};
use crate::xmpp::modules::avatar::{NS_AVATAR_DATA, NS_AVATAR_META, metadata_payload, publish_iq, vcard_request};
use crate::xmpp::modules::blocking::{item_list, iq_with};
use crate::xmpp::modules::bob::{NS_BOB, build_bob_request};
use crate::xmpp::modules::conversation_sync::{CONV_SYNC_NODE, convs_view};
use crate::xmpp::modules::disco::{NS_DISCO_ITEMS, disco_request};
use crate::xmpp::modules::file_upload::{SlotRequestView, slot_request};
use crate::xmpp::modules::message_mutations::{MutationManager, correction_message, reaction_message, retraction_message, strings_view};
use crate::xmpp::modules::muc::{MucManager, MucRoomView, join_presence};
use crate::xmpp::modules::muc_admin::{AffiliationAction, action_target, admin_iq};
use crate::xmpp::modules::muc_config::{MucConfigQueryView, config_form, owner_iq};
use crate::xmpp::modules::muc_voice::room_message;
use crate::xmpp::modules::presence_machine::{PresenceStatus, activity_spec, effective_spec, idle_spec, presence_stanza, set_user_status_spec, sleep_spec};
use crate::xmpp::modules::push::{NS_PUSH, disable_payload, enable_payload, is_hex_text, set_iq};
use crate::xmpp::modules::spam_report::{build_spam_report, report_elem};
use crate::xmpp::modules::stickers::{build_sticker_message, sticker_message};
use crate::xmpp::modules::sync::{conv_jids, insert_all, is_sync_iq};
use crate::xmpp::modules::vcard_edit::vcard_elem;
use crate::xmpp::modules::{NS_CLIENT, NS_MUC, NS_MUC_ADMIN, NS_MUC_OWNER, NS_VCARD, NS_X_CONFERENCE};
use crate::xmpp::{XmppCommand, views};
use super::SessionState;

verus! {


/// What a command leaves for the engine.
#[derive(Debug, Clone, Copy, PartialEq, Eq, Structural)]
pub enum CommandOutcome {
    /// Handled here; the session goes on.
    Handled,
    /// The session loop must end (a disconnect, or a new connection).
    Stop,
    /// OMEMO work on the key store, done by the engine.
    Omemo,
}

/// One stanza was queued after those already there.
pub open spec fn pushed(out0: Seq<ElementView>, out1: Seq<ElementView>) -> bool {
    out1.len() == out0.len() + 1 && out1.drop_last() == out0
}

/// The direct invitation of `user` to `room` (XEP-0249).
pub open spec fn invitation(room: Seq<char>, user: Seq<char>, reason: Option<Seq<char>>) -> ElementView {
    let x = elem("x"@, NS_X_CONFERENCE@).with_attr("jid"@, room);
    let x2 = match reason {
        Some(t) => if t.len() > 0 {
            x.with_child(elem("reason"@, NS_CLIENT@).with_text(t))
        } else {
            x
        },
        None => x,
    };
    elem("message"@, NS_CLIENT@).with_attr("to"@, user).with_child(x2)
}

/// The service for `prefix` on the account's domain, or the fallback.
pub open spec fn service_on(prefix: Seq<char>, acct: Seq<char>, fallback: Seq<char>) -> Seq<char> {
    match account_domain(acct) {
        Some(d) => prefix + d,
        None => fallback,
    }
}

/// A presence change of the user: the model moves as `m1`, and the new
/// presence goes out when the effective status changed (and is not offline).
pub open spec fn presence_change(s: SessionState, t: SessionState, out0: Seq<ElementView>, out1: Seq<ElementView>, m1: crate::xmpp::modules::presence_machine::PresenceModel, always: bool) -> bool {
    &&& t == SessionState { presence: t.presence, ..s }
    &&& t.presence.model() == m1
    &&& if (always || effective_spec(s.presence.model()) != effective_spec(m1)) && effective_spec(m1) != PresenceStatus::Offline {
        out1 == out0.push(presence_stanza(effective_spec(m1)))
    } else {
        out1 == out0
    }
}

/// A role change of `nick` in `room` was queued.
pub open spec fn role_queued(out0: Seq<ElementView>, out1: Seq<ElementView>, room: Seq<char>, nick: Seq<char>, role: Seq<char>) -> bool {
    &&& pushed(out0, out1)
    &&& exists|u: Seq<char>|
        #[trigger] is_uuid_v4_text(u) && out1.last() == admin_iq(
            "muc-role-"@ + u,
            room,
            elem("item"@, NS_MUC_ADMIN@).with_attr("nick"@, nick).with_attr("role"@, role),
        )
}

/// An affiliation change in `room` was queued.
pub open spec fn affiliation_queued(out0: Seq<ElementView>, out1: Seq<ElementView>, room: Seq<char>, action: AffiliationAction) -> bool {
    let (aff, jid) = action_target(action);
    &&& pushed(out0, out1)
    &&& exists|u: Seq<char>|
        #[trigger] is_uuid_v4_text(u) && out1.last() == admin_iq(
            "muc-affil-"@ + u,
            room,
            elem("item"@, NS_MUC_ADMIN@).with_attr("affiliation"@, aff).with_attr("jid"@, jid),
        )
}

/// A disco#items request to `to` was queued and recorded.
pub open spec fn items_request_queued(s: SessionState, t: SessionState, out0: Seq<ElementView>, out1: Seq<ElementView>, to: Seq<char>) -> bool {
    &&& t == SessionState { disco: t.disco, ..s }
    &&& pushed(out0, out1)
    &&& exists|id: Seq<char>|
        {
            &&& #[trigger] is_uuid_v4_text(id)
            &&& out1.last() == disco_request(id, to, NS_DISCO_ITEMS@)
            &&& t.disco.pending_items() == s.disco.pending_items().insert(id, to)
        }
    &&& t.disco.pending_info() == s.disco.pending_info()
    &&& t.disco.cache() == s.disco.cache()
    &&& t.disco.own_caps() == s.disco.own_caps()
}

/// A room join (or creation) of `room` as `nick` was queued.
pub open spec fn join_queued(s: SessionState, t: SessionState, out0: Seq<ElementView>, out1: Seq<ElementView>, room: Seq<char>, nick: Seq<char>) -> bool {
    &&& t == SessionState { muc: t.muc, ..s }
    &&& out1 == out0.push(join_presence(room, nick))
    &&& t.muc.rooms() == s.muc.rooms().insert(room, MucRoomView { jid: room, nickname: nick, subject: Seq::empty(), occupants: Map::empty() })
}

/// An ad-hoc command request with payload `command` was queued for `node`.
pub open spec fn adhoc_queued(s: SessionState, t: SessionState, out0: Seq<ElementView>, out1: Seq<ElementView>, to: Seq<char>, node: Seq<char>, command: ElementView) -> bool {
    &&& t == SessionState { adhoc: t.adhoc, ..s }
    &&& pushed(out0, out1)
    &&& exists|id: Seq<char>|
        {
            &&& #[trigger] is_uuid_v4_text(id)
            &&& out1.last() == command_iq(id, to, command)
            &&& t.adhoc.pending() == s.adhoc.pending().insert(id, node)
        }
}

/// The ignore list of `room` was published after the change.
pub open spec fn ignore_published(t: SessionState, out0: Seq<ElementView>, out1: Seq<ElementView>, room: Seq<char>) -> bool {
    &&& pushed(out0, out1)
    &&& exists|users: Seq<Seq<char>>|
        {
            &&& crate::util::order::strictly_sorted(users)
            &&& users.to_set() == t.ignore.ignored_in(room)
            &&& out1.last() == #[trigger] crate::xmpp::modules::ignore::publish_iq(room, users)
        }
}

/// What each command does. `acct` is the account's JID, `flags` the
/// privacy switches (bit 1: typing notifications, bit 2: read markers).
pub open spec fn command_ok(
    cmd: XmppCommand,
    s: SessionState,
    t: SessionState,
    out0: Seq<ElementView>,
    out1: Seq<ElementView>,
    r: CommandOutcome,
    acct: Seq<char>,
    flags: u8,
) -> bool {
    match cmd {
        XmppCommand::Connect(_) | XmppCommand::Disconnect => r == CommandOutcome::Stop && t == s && out1 == out0,
        XmppCommand::OmemoEnable | XmppCommand::OmemoEncryptMessage { .. } | XmppCommand::OmemoTrustDevice { .. } => r
            == CommandOutcome::Omemo && t == s && out1 == out0,
        XmppCommand::RemoveContact(_) | XmppCommand::RenameContact { .. } | XmppCommand::FetchVCard(_)
        | XmppCommand::FetchHistory { .. } | XmppCommand::Register(_) | XmppCommand::SubmitRegistration { .. }
        | XmppCommand::SwitchAccount(_) | XmppCommand::RemoveAccount(_) | XmppCommand::ConnectAccount(_)
        | XmppCommand::DisconnectAccount(_) | XmppCommand::FetchIgnoreList { .. } => r == CommandOutcome::Handled && t == s
            && out1 == out0,
        _ => r == CommandOutcome::Handled && match cmd {
            XmppCommand::SetPresence(status) => presence_change(s, t, out0, out1, set_user_status_spec(s.presence.model(), status), true),
            XmppCommand::UserIdle => presence_change(s, t, out0, out1, idle_spec(s.presence.model()), false),
            XmppCommand::UserExtendedIdle => presence_change(s, t, out0, out1, sleep_spec(s.presence.model()), false),
            XmppCommand::UserActive => presence_change(s, t, out0, out1, activity_spec(s.presence.model()), false),
            XmppCommand::SendMessage { to, body, id } => t == s && match parsed_jid(to@) {
                Some(j) => out1 == out0.push(chat_message(j, body@, id@)),
                None => out1 == out0,
            },
            XmppCommand::SendChatState { to, composing } => t == s && match parsed_jid(to@) {
                Some(j) => if flags & 2u8 != 0 {
                    out1 == out0.push(chat_state_message(j, composing))
                } else {
                    out1 == out0
                },
                None => out1 == out0,
            },
            XmppCommand::SendReaction { to, msg_id, emojis } => t == s && match parsed_jid(to@) {
                Some(j) => out1 == out0.push(reaction_message(j, msg_id@, strings_view(emojis@))),
                None => out1 == out0,
            },
            XmppCommand::SendCorrection { to, original_id, new_body } => t == s && match parsed_jid(to@) {
                Some(j) => pushed(out0, out1) && exists|id: Seq<char>|
                    #[trigger] is_uuid_v4_text(id) && out1.last() == correction_message(j, id, original_id@, new_body@),
                None => out1 == out0,
            },
            XmppCommand::SendRetraction { to, origin_id } => t == s && match parsed_jid(to@) {
                Some(j) => pushed(out0, out1) && exists|id: Seq<char>|
                    #[trigger] is_uuid_v4_text(id) && out1.last() == retraction_message(j, id, origin_id@),
                None => out1 == out0,
            },
            XmppCommand::SendDisplayed { to, id } => t == s && if flags & 4u8 != 0 {
                out1 == out0.push(displayed_message(to@, id@))
            } else {
                out1 == out0
            },
            XmppCommand::SendRoomInvitation { room, user, reason } => t == s && match (parsed_jid(room@), parsed_jid(user@)) {
                (Some(rj), Some(uj)) => out1 == out0.push(
                    invitation(
                        rj,
                        uj,
                        match reason {
                            Some(x) => Some(x@),
                            None => None,
                        },
                    ),
                ),
                _ => out1 == out0,
            },
            XmppCommand::ModerateMessage { room_jid, message_id, reason } => t == s && pushed(out0, out1) && exists|id: Seq<char>|
                #[trigger] is_uuid_v4_text(id) && out1.last() == moderation_message(
                    room_jid@,
                    message_id@,
                    match reason {
                        Some(x) => Some(x@),
                        None => None,
                    },
                    id,
                ),
            XmppCommand::SendSticker { to, pack_id, sticker } => t == s && pushed(out0, out1) && exists|id: Seq<char>|
                #[trigger] is_uuid_v4_text(id) && out1.last() == sticker_message(to@, id, pack_id@, sticker@),
            XmppCommand::ReportSpam { jid, reason } => t == s && pushed(out0, out1) && exists|id: Seq<char>|
                #[trigger] is_uuid_v4_text(id) && out1.last() == elem("iq"@, NS_CLIENT@).with_attr("type"@, "set"@).with_attr(
                    "id"@,
                    id,
                ).with_child(
                    report_elem(
                        jid@,
                        match reason {
                            Some(x) => Some(x@),
                            None => None,
                        },
                    ),
                ),
            XmppCommand::RequestBob { cid, from } => t == s && pushed(out0, out1) && exists|id: Seq<char>|
                #[trigger] is_uuid_v4_text(id) && out1.last() == elem("iq"@, NS_CLIENT@).with_attr("type"@, "get"@).with_attr(
                    "id"@,
                    id,
                ).with_attr("to"@, from@).with_child(elem("data"@, NS_BOB@).with_attr("cid"@, cid@)),
            XmppCommand::AddContact(jid) => t == s && pushed(out0, out1) && exists|id: Seq<char>|
                #[trigger] is_uuid_v4_text(id) && out1.last() == roster_set(jid@, id),
            XmppCommand::SetMamPrefs { default_mode } => t == s && pushed(out0, out1) && exists|id: Seq<char>|
                #[trigger] is_uuid_v4_text(id) && out1.last() == mam_prefs_set(default_mode@, id),
            XmppCommand::BlockJid(jid) => {
                &&& t == SessionState { blocking: t.blocking, ..s }
                &&& t.blocking.blocked() == s.blocking.blocked()
                &&& pushed(out0, out1)
                &&& exists|id: Seq<char>| #[trigger] is_uuid_v4_text(id) && out1.last() == iq_with("set"@, id, item_list("block"@, seq![jid@]))
            },
            XmppCommand::UnblockJid(jid) => {
                &&& t == SessionState { blocking: t.blocking, ..s }
                &&& t.blocking.blocked() == s.blocking.blocked()
                &&& pushed(out0, out1)
                &&& exists|id: Seq<char>| #[trigger] is_uuid_v4_text(id) && out1.last() == iq_with("set"@, id, item_list("unblock"@, seq![jid@]))
            },
            XmppCommand::RequestUploadSlot { filename, size, mime } => match account_domain(acct) {
                Some(d) => {
                    let service = "upload."@ + d;
                    &&& t == SessionState { file_upload: t.file_upload, ..s }
                    &&& pushed(out0, out1)
                    &&& exists|id: Seq<char>|
                        {
                            &&& #[trigger] is_uuid_v4_text(id)
                            &&& out1.last() == slot_request(id, filename@, size, mime@, service)
                            &&& t.file_upload.pending() == s.file_upload.pending().insert(
                                id,
                                SlotRequestView { id, filename: filename@, size, content_type: mime@, upload_service_jid: service },
                            )
                        }
                },
                None => t == s && out1 == out0,
            },
            XmppCommand::FetchAvatar(jid) => {
                &&& t == SessionState { avatar: t.avatar, ..s }
                &&& t.avatar.cache() == s.avatar.cache()
                &&& pushed(out0, out1)
                &&& exists|id: Seq<char>|
                    {
                        &&& #[trigger] is_uuid_v4_text(id)
                        &&& out1.last() == vcard_request(id, jid@)
                        &&& t.avatar.pending_vcards() == s.avatar.pending_vcards().insert(id, jid@)
                    }
            },
            XmppCommand::SetAvatar { data, mime_type } => {
                let sha1 = hex_text(sha1_digest(data@));
                let service = service_on("pubsub."@, acct, "pubsub.example.com"@);
                &&& t == s
                &&& out1 == out0.push(publish_iq(service, NS_AVATAR_META@, sha1, metadata_payload(sha1, data@.len(), mime_type@))).push(
                    publish_iq(service, NS_AVATAR_DATA@, sha1, elem("data"@, NS_AVATAR_DATA@).with_text(base64_encoded(data@))),
                )
            },
            XmppCommand::JoinRoom { jid, nick } => join_queued(s, t, out0, out1, jid@, nick@),
            XmppCommand::CreateRoom { local, service, nick } => join_queued(s, t, out0, out1, local@ + "@"@ + service@, nick@),
            XmppCommand::LeaveRoom(jid) => {
                &&& t == SessionState { muc: t.muc, ..s }
                &&& t.muc.rooms() == s.muc.rooms().remove(jid@)
                &&& if s.muc.rooms().contains_key(jid@) {
                    out1 == out0.push(
                        elem("presence"@, NS_CLIENT@).with_attr("to"@, jid@ + "/"@ + s.muc.rooms()[jid@].nickname).with_attr(
                            "type"@,
                            "unavailable"@,
                        ),
                    )
                } else {
                    out1 == out0
                }
            },
            XmppCommand::FetchRoomList => items_request_queued(s, t, out0, out1, service_on("conference."@, acct, "conference.example.com"@)),
            XmppCommand::DiscoverAdhocCommands { target_jid } => items_request_queued(s, t, out0, out1, target_jid@),
            XmppCommand::ConfigureRoom { room_jid, config } => {
                &&& t == SessionState { muc_config: t.muc_config, ..s }
                &&& pushed(out0, out1)
                &&& exists|u: Seq<char>|
                    {
                        let id = "muc-config-submit-"@ + u;
                        &&& #[trigger] is_uuid_v4_text(u)
                        &&& out1.last() == owner_iq(id, room_jid@, "set"@, elem("query"@, NS_MUC_OWNER@).with_child(config_form(config@)))
                        &&& t.muc_config.pending() == s.muc_config.pending().insert(id, MucConfigQueryView::SubmitConfig { room_jid: room_jid@ })
                    }
            },
            XmppCommand::KickUser { room_jid, nick } => t == s && role_queued(out0, out1, room_jid@, nick@, "none"@),
            XmppCommand::GrantVoice { room_jid, nick } => t == s && role_queued(out0, out1, room_jid@, nick@, "participant"@),
            XmppCommand::RevokeVoice { room_jid, nick } => t == s && role_queued(out0, out1, room_jid@, nick@, "visitor"@),
            XmppCommand::GrantModerator { room_jid, nick } => t == s && role_queued(out0, out1, room_jid@, nick@, "moderator"@),
            XmppCommand::BanUser { room_jid, jid } => t == s && affiliation_queued(out0, out1, room_jid@, AffiliationAction::Ban(jid)),
            XmppCommand::SetAffiliation { room_jid, action } => t == s && affiliation_queued(out0, out1, room_jid@, action),
            XmppCommand::RequestVoice { room_jid, nick } => t == s && out1 == out0.push(room_message(room_jid@, elem("decline"@, NS_MUC@))),
            XmppCommand::ApproveVoice { room_jid, nick } => t == s && out1 == out0.push(
                room_message(room_jid@, elem("approve"@, NS_MUC@).with_attr("nick"@, nick@)),
            ),
            XmppCommand::DeclineVoice { room_jid, nick } => t == s && out1 == out0.push(
                room_message(room_jid@, elem("decline"@, NS_MUC@).with_attr("nick"@, nick@)),
            ),
            XmppCommand::EnablePush { service_jid } => {
                &&& t == SessionState { push: t.push, ..s }
                &&& t.push.subscriptions() == s.push.subscriptions()
                &&& pushed(out0, out1)
                &&& exists|id: Seq<char>, node: Seq<char>, secret: Seq<char>|
                    {
                        &&& is_uuid_v4_text(id) && is_uuid_v4_text(node) && is_hex_text(secret, 32)
                        &&& out1.last() == #[trigger] set_iq(id, enable_payload(service_jid@, node, secret))
                        &&& t.push.pending_enable() == s.push.pending_enable().insert(id, service_jid@)
                    }
            },
            XmppCommand::DisablePush { service_jid } => {
                &&& t == SessionState { push: t.push, ..s }
                &&& t.push.subscriptions() == s.push.subscriptions()
                &&& t.push.pending_enable() == s.push.pending_enable()
                &&& pushed(out0, out1)
                &&& exists|id: Seq<char>, node: Seq<char>|
                    {
                        &&& is_uuid_v4_text(id)
                        &&& (s.push.subscriptions().contains_key(service_jid@) ==> node == s.push.subscriptions()[service_jid@].node)
                        &&& (!s.push.subscriptions().contains_key(service_jid@) ==> is_uuid_v4_text(node))
                        &&& out1.last() == #[trigger] set_iq(id, disable_payload(service_jid@, node))
                    }
            },
            XmppCommand::DisableAllPush => t == s && pushed(out0, out1) && exists|id: Seq<char>|
                #[trigger] is_uuid_v4_text(id) && out1.last() == set_iq(id, elem("disable"@, NS_PUSH@)),
            XmppCommand::FetchOwnVCard => {
                &&& t == SessionState { vcard_edit: t.vcard_edit, ..s }
                &&& t.vcard_edit.pending_set() == s.vcard_edit.pending_set()
                &&& pushed(out0, out1)
                &&& exists|id: Seq<char>|
                    {
                        &&& #[trigger] is_uuid_v4_text(id)
                        &&& out1.last() == elem("iq"@, NS_CLIENT@).with_attr("type"@, "get"@).with_attr("id"@, id).with_child(elem("vCard"@, NS_VCARD@))
                        &&& t.vcard_edit.pending_get() == s.vcard_edit.pending_get().insert(id)
                    }
            },
            XmppCommand::SetOwnVCard(fields) => {
                &&& t == SessionState { vcard_edit: t.vcard_edit, ..s }
                &&& t.vcard_edit.pending_get() == s.vcard_edit.pending_get()
                &&& pushed(out0, out1)
                &&& exists|id: Seq<char>|
                    {
                        &&& #[trigger] is_uuid_v4_text(id)
                        &&& out1.last() == elem("iq"@, NS_CLIENT@).with_attr("type"@, "set"@).with_attr("id"@, id).with_child(vcard_elem(fields@))
                        &&& t.vcard_edit.pending_set() == s.vcard_edit.pending_set().insert(id)
                    }
            },
            XmppCommand::ExecuteAdhocCommand { to_jid, node } => adhoc_queued(
                s,
                t,
                out0,
                out1,
                to_jid@,
                node@,
                elem("command"@, NS_ADHOC@).with_attr("action"@, "execute"@).with_attr("node"@, node@),
            ),
            XmppCommand::ContinueAdhocCommand { to_jid, node, session_id, fields } => adhoc_queued(
                s,
                t,
                out0,
                out1,
                to_jid@,
                node@,
                elem("command"@, NS_ADHOC@).with_attr("action"@, "next"@).with_attr("node"@, node@).with_attr("sessionid"@, session_id@).with_child(
                    submit_form(fields_view(fields@)),
                ),
            ),
            XmppCommand::CancelAdhocCommand { to_jid, node, session_id } => adhoc_queued(
                s,
                t,
                out0,
                out1,
                to_jid@,
                node@,
                elem("command"@, NS_ADHOC@).with_attr("action"@, "cancel"@).with_attr("node"@, node@).with_attr("sessionid"@, session_id@),
            ),
            XmppCommand::IgnoreUser { room_jid, user_jid } => {
                &&& t == SessionState { ignore: t.ignore, ..s }
                &&& t.ignore.lists() == s.ignore.lists().insert(room_jid@, s.ignore.ignored_in(room_jid@).insert(user_jid@))
                &&& ignore_published(t, out0, out1, room_jid@)
            },
            XmppCommand::UnignoreUser { room_jid, user_jid } => {
                &&& t == SessionState { ignore: t.ignore, ..s }
                &&& t.ignore.lists() == (if s.ignore.lists().contains_key(room_jid@) {
                    s.ignore.lists().insert(room_jid@, s.ignore.lists()[room_jid@].remove(user_jid@))
                } else {
                    s.ignore.lists()
                })
                &&& ignore_published(t, out0, out1, room_jid@)
            },
            XmppCommand::SyncConversations(conversations) => t == s && out1 == out0.push(
                crate::xmpp::modules::conversation_sync::publish_iq(convs_view(conversations@)),
            ),
            XmppCommand::FetchConversations => t == s && out1 == out0.push(
                elem("iq"@, NS_CLIENT@).with_attr("type"@, "get"@).with_child(
                    elem("pubsub"@, crate::xmpp::modules::NS_PUBSUB@).with_child(
                        elem("items"@, crate::xmpp::modules::NS_PUBSUB@).with_attr("node"@, CONV_SYNC_NODE@),
                    ),
                ),
            ),
            XmppCommand::ChangePassword { username, new_password } => {
                &&& t == SessionState { account: t.account, ..s }
                &&& t.account.pending_delete() == s.account.pending_delete()
                &&& pushed(out0, out1)
                &&& exists|id: Seq<char>|
                    {
                        &&& #[trigger] is_uuid_v4_text(id)
                        &&& out1.last() == register_set(id, change_password_query(username@, new_password@))
                        &&& t.account.pending_change() == s.account.pending_change().insert(id)
                    }
            },
            XmppCommand::DeleteAccount => {
                &&& t == SessionState { account: t.account, ..s }
                &&& t.account.pending_change() == s.account.pending_change()
                &&& pushed(out0, out1)
                &&& exists|id: Seq<char>|
                    {
                        &&& #[trigger] is_uuid_v4_text(id)
                        &&& out1.last() == register_set(
                            id,
                            elem("query"@, crate::xmpp::modules::registration::NS_REGISTER@).with_child(
                                elem("remove"@, crate::xmpp::modules::registration::NS_REGISTER@),
                            ),
                        )
                        &&& t.account.pending_delete() == s.account.pending_delete().insert(id)
                    }
            },
            XmppCommand::StartMamSync(conversations) => {
                let n = conversations@.len();
                &&& t == SessionState { sync: t.sync, ..s }
                &&& out1.len() == out0.len() + n
                &&& out1.take(out0.len() as int) == out0
                &&& t.sync.received() == s.sync.received()
                &&& t.sync.fetched() == s.sync.fetched()
                &&& exists|ids: Seq<Seq<char>>|
                    {
                        &&& #[trigger] ids.len() == n
                        &&& forall|i: int| 0 <= i < n ==> #[trigger] is_uuid_v4_text(ids[i])
                        &&& forall|i: int|
                            0 <= i < n ==> is_sync_iq(
                                #[trigger] out1[out0.len() + i],
                                ids[i],
                                conversations@[i].0@,
                                crate::xmpp::modules::mam::opt_view(conversations@[i].1),
                            )
                        &&& t.sync.pending() == insert_all(s.sync.pending(), conv_jids(conversations@), ids)
                        &&& t.sync.queries() == insert_all(s.sync.queries(), ids, conv_jids(conversations@))
                    }
            },
            _ => false,
        },
    }
}

fn push_el(outbox: &mut VecDeque<Element>, e: Element)
    ensures
        views(final(outbox)@) == views(old(outbox)@).push(e@),
        pushed(views(old(outbox)@), views(final(outbox)@)),
{
    let ghost before = outbox@;
    let ghost ev = e@;
    outbox.push_back(e);
    assert(views(outbox@) =~= views(before).push(ev));
    assert(views(outbox@).drop_last() =~= views(before));
}

fn str_refs(v: &Vec<String>) -> (r: Vec<&str>)
    ensures
        crate::xmpp::modules::message_mutations::strs_view(r@) == strings_view(v@),
{
    let mut out: Vec<&str> = Vec::new();
    let mut i: usize = 0;
    while i < v.len()
        invariant
            i <= v.len(),
            out@.len() == i,
            forall|k: int| 0 <= k < i ==> #[trigger] out@[k]@ == v@[k]@,
        decreases v.len() - i,
    {
        out.push(v[i].as_str());
        i += 1;
    }
    assert(crate::xmpp::modules::message_mutations::strs_view(out@) =~= strings_view(v@));
    out
}

fn opt_ref(o: &Option<String>) -> (r: Option<&str>)
    ensures
        opt_str(r) == (match o {
            Some(x) => Some(x@),
            None => None,
        }),
{
    match o {
        Some(x) => Some(x.as_str()),
        None => None,
    }
}

/// A presence change: `before` is the effective status before the change;
/// the presence goes out when `always` or when the status changed.
fn announce_presence(st: &SessionState, outbox: &mut VecDeque<Element>, before: PresenceStatus, always: bool)
    ensures
        if (always || before != effective_spec(st.presence.model())) && effective_spec(st.presence.model()) != PresenceStatus::Offline {
            views(final(outbox)@) == views(old(outbox)@).push(presence_stanza(effective_spec(st.presence.model())))
        } else {
            views(final(outbox)@) == views(old(outbox)@)
        },
{
    let after = st.presence.effective_status();
    if always || before != after {
        if let Some(stanza) = st.presence.build_presence_stanza() {
            push_el(outbox, stanza);
        }
    }
}

/// What a command does (see [`command_ok`]): the stanzas appended to
/// `outbox`, the state updated, and what is left for the engine.
/// `account_jid` is the account's JID, `privacy_flags` the privacy switches.
/// `FetchIgnoreList` does nothing: the ignore list lives locally and there
/// is no request that fetches it from a server.
#[verifier::rlimit(100)]
#[verifier::spinoff_prover]
pub fn handle_command(
    cmd: XmppCommand,
    st: &mut SessionState,
    outbox: &mut VecDeque<Element>,
    account_jid: &str,
    privacy_flags: u8,
) -> (r: CommandOutcome)
    requires
        cmd matches XmppCommand::SetAvatar { data, .. } ==> data@.len() <= usize::MAX / 2,
        cmd matches XmppCommand::StartMamSync(c) ==> old(st).sync.fetched() + c@.len() <= usize::MAX,
    ensures
        command_ok(cmd, *old(st), *final(st), views(old(outbox)@), views(final(outbox)@), r, account_jid@, privacy_flags),
{
    let ghost out0 = views(outbox@);
    match cmd {
        XmppCommand::Connect(_) | XmppCommand::Disconnect => CommandOutcome::Stop,
        XmppCommand::OmemoEnable | XmppCommand::OmemoEncryptMessage { .. } | XmppCommand::OmemoTrustDevice { .. } => CommandOutcome::Omemo,
        XmppCommand::RemoveContact(_) | XmppCommand::RenameContact { .. } | XmppCommand::FetchVCard(_)
        | XmppCommand::FetchHistory { .. } | XmppCommand::Register(_) | XmppCommand::SubmitRegistration { .. }
        | XmppCommand::SwitchAccount(_) | XmppCommand::RemoveAccount(_) | XmppCommand::ConnectAccount(_)
        | XmppCommand::DisconnectAccount(_) | XmppCommand::FetchIgnoreList { .. } => CommandOutcome::Handled,
        XmppCommand::SetPresence(status) => {
            let before = st.presence.effective_status();
            st.presence.set_user_status(status);
            announce_presence(st, outbox, before, true);
            CommandOutcome::Handled
        },
        XmppCommand::UserIdle => {
            let before = st.presence.effective_status();
            st.presence.on_idle_detected();
            announce_presence(st, outbox, before, false);
            CommandOutcome::Handled
        },
        XmppCommand::UserExtendedIdle => {
            let before = st.presence.effective_status();
            st.presence.on_sleep_detected();
            announce_presence(st, outbox, before, false);
            CommandOutcome::Handled
        },
        XmppCommand::UserActive => {
            let before = st.presence.effective_status();
            st.presence.on_activity_detected();
            announce_presence(st, outbox, before, false);
            CommandOutcome::Handled
        },
        XmppCommand::SendMessage { to, body, id } => {
            if let Some(j) = normalized_jid(to.as_str()) {
                push_el(outbox, make_message(j.as_str(), body.as_str(), id.as_str()));
            }
            CommandOutcome::Handled
        },
        XmppCommand::SendChatState { to, composing } => {
            if privacy_flags & 2u8 != 0 {
                if let Some(j) = normalized_jid(to.as_str()) {
                    push_el(outbox, make_chat_state_message(j.as_str(), composing));
                }
            }
            CommandOutcome::Handled
        },
        XmppCommand::SendReaction { to, msg_id, emojis } => {
            if let Some(j) = normalized_jid(to.as_str()) {
                let refs = str_refs(&emojis);
                push_el(outbox, MutationManager::new().build_reaction(j.as_str(), msg_id.as_str(), refs.as_slice()));
            }
            CommandOutcome::Handled
        },
        XmppCommand::SendCorrection { to, original_id, new_body } => {
            if let Some(j) = normalized_jid(to.as_str()) {
                push_el(outbox, MutationManager::new().build_correction(j.as_str(), original_id.as_str(), new_body.as_str()));
            }
            CommandOutcome::Handled
        },
        XmppCommand::SendRetraction { to, origin_id } => {
            if let Some(j) = normalized_jid(to.as_str()) {
                push_el(outbox, MutationManager::new().build_retraction(j.as_str(), origin_id.as_str()));
            }
            CommandOutcome::Handled
        },
        XmppCommand::SendDisplayed { to, id } => {
            if privacy_flags & 4u8 != 0 {
                push_el(outbox, make_displayed_message(to.as_str(), id.as_str()));
            }
            CommandOutcome::Handled
        },
        XmppCommand::SendRoomInvitation { room, user, reason } => {
            if let Some(rj) = normalized_jid(room.as_str()) {
                if let Some(uj) = normalized_jid(user.as_str()) {
                    push_el(outbox, MucManager::build_invitation(rj.as_str(), uj.as_str(), opt_ref(&reason)));
                }
            }
            CommandOutcome::Handled
        },
        XmppCommand::ModerateMessage { room_jid, message_id, reason } => {
            push_el(outbox, make_moderation_message(room_jid.as_str(), message_id.as_str(), opt_ref(&reason)));
            CommandOutcome::Handled
        },
        XmppCommand::SendSticker { to, pack_id, sticker } => {
            push_el(outbox, build_sticker_message(to.as_str(), pack_id.as_str(), &sticker));
            CommandOutcome::Handled
        },
        XmppCommand::ReportSpam { jid, reason } => {
            push_el(outbox, build_spam_report(jid.as_str(), opt_ref(&reason)));
            CommandOutcome::Handled
        },
        XmppCommand::RequestBob { cid, from } => {
            push_el(outbox, build_bob_request(cid.as_str(), from.as_str()));
            CommandOutcome::Handled
        },
        XmppCommand::AddContact(jid) => {
            push_el(outbox, make_roster_set(jid.as_str()));
            CommandOutcome::Handled
        },
        XmppCommand::SetMamPrefs { default_mode } => {
            push_el(outbox, make_mam_prefs_set(default_mode.as_str()));
            CommandOutcome::Handled
        },
        XmppCommand::BlockJid(jid) => {
            let jids = [jid.as_str()];
            let iq = st.blocking.build_block_iq(&jids);
            assert(crate::xmpp::modules::blocking::jids_view(jids@) =~= seq![jid@]);
            push_el(outbox, iq);
            CommandOutcome::Handled
        },
        XmppCommand::UnblockJid(jid) => {
            let jids = [jid.as_str()];
            let iq = st.blocking.build_unblock_iq(&jids);
            assert(crate::xmpp::modules::blocking::jids_view(jids@) =~= seq![jid@]);
            push_el(outbox, iq);
            CommandOutcome::Handled
        },
        XmppCommand::RequestUploadSlot { filename, size, mime } => {
            if let Some(d) = account_domain_of(account_jid) {
                let service = concat("upload.", d.as_str());
                let (_, iq) = st.file_upload.request_slot(filename.as_str(), size, mime.as_str(), service.as_str());
                push_el(outbox, iq);
            }
            CommandOutcome::Handled
        },
        XmppCommand::FetchAvatar(jid) => {
            let (_, iq) = st.avatar.build_vcard_request(jid.as_str());
            push_el(outbox, iq);
            CommandOutcome::Handled
        },
        XmppCommand::SetAvatar { data, mime_type } => {
            let digest = crate::util::codec::sha1(data.as_slice());
            let sha1 = hex_lower(digest.as_slice());
            let service = match account_domain_of(account_jid) {
                Some(d) => concat("pubsub.", d.as_str()),
                None => "pubsub.example.com".to_owned(),
            };
            let meta = st.avatar.build_avatar_metadata_publish(service.as_str(), sha1.as_str(), data.len(), mime_type.as_str());
            let payload = st.avatar.build_avatar_data_publish(service.as_str(), sha1.as_str(), data.as_slice(), mime_type.as_str());
            push_el(outbox, meta);
            push_el(outbox, payload);
            CommandOutcome::Handled
        },
        XmppCommand::JoinRoom { jid, nick } => {
            push_el(outbox, st.muc.join_room(jid.as_str(), nick.as_str()));
            CommandOutcome::Handled
        },
        XmppCommand::CreateRoom { local, service, nick } => {
            let room = concat(concat(local.as_str(), "@").as_str(), service.as_str());
            push_el(outbox, st.muc.join_room(room.as_str(), nick.as_str()));
            CommandOutcome::Handled
        },
        XmppCommand::LeaveRoom(jid) => {
            if let Some(stanza) = st.muc.leave_room(jid.as_str()) {
                push_el(outbox, stanza);
            }
            CommandOutcome::Handled
        },
        XmppCommand::FetchRoomList => {
            let service = match account_domain_of(account_jid) {
                Some(d) => concat("conference.", d.as_str()),
                None => "conference.example.com".to_owned(),
            };
            let (_, iq) = st.disco.build_items_request(service.as_str());
            push_el(outbox, iq);
            CommandOutcome::Handled
        },
        XmppCommand::DiscoverAdhocCommands { target_jid } => {
            let (_, iq) = st.disco.build_items_request(target_jid.as_str());
            push_el(outbox, iq);
            CommandOutcome::Handled
        },
        XmppCommand::ConfigureRoom { room_jid, config } => {
            let (_, iq) = st.muc_config.build_config_submit(room_jid.as_str(), &config);
            push_el(outbox, iq);
            CommandOutcome::Handled
        },
        XmppCommand::KickUser { room_jid, nick } => {
            let (_, iq) = st.muc_admin.build_role_query(room_jid.as_str(), nick.as_str(), "none");
            push_el(outbox, iq);
            CommandOutcome::Handled
        },
        XmppCommand::GrantVoice { room_jid, nick } => {
            let (_, iq) = st.muc_admin.build_role_query(room_jid.as_str(), nick.as_str(), "participant");
            push_el(outbox, iq);
            CommandOutcome::Handled
        },
        XmppCommand::RevokeVoice { room_jid, nick } => {
            let (_, iq) = st.muc_admin.build_role_query(room_jid.as_str(), nick.as_str(), "visitor");
            push_el(outbox, iq);
            CommandOutcome::Handled
        },
        XmppCommand::GrantModerator { room_jid, nick } => {
            let (_, iq) = st.muc_admin.build_role_query(room_jid.as_str(), nick.as_str(), "moderator");
            push_el(outbox, iq);
            CommandOutcome::Handled
        },
        XmppCommand::BanUser { room_jid, jid } => {
            let (_, iq) = st.muc_admin.build_affiliation_query(room_jid.as_str(), AffiliationAction::Ban(jid));
            push_el(outbox, iq);
            CommandOutcome::Handled
        },
        XmppCommand::SetAffiliation { room_jid, action } => {
            let (_, iq) = st.muc_admin.build_affiliation_query(room_jid.as_str(), action);
            push_el(outbox, iq);
            CommandOutcome::Handled
        },
        XmppCommand::RequestVoice { room_jid, nick } => {
            push_el(outbox, st.muc_voice.build_voice_request(room_jid.as_str(), nick.as_str()));
            CommandOutcome::Handled
        },
        XmppCommand::ApproveVoice { room_jid, nick } => {
            push_el(outbox, st.muc_voice.build_approve_voice(room_jid.as_str(), nick.as_str()));
            CommandOutcome::Handled
        },
        XmppCommand::DeclineVoice { room_jid, nick } => {
            push_el(outbox, st.muc_voice.build_decline_voice(room_jid.as_str(), nick.as_str()));
            CommandOutcome::Handled
        },
        XmppCommand::EnablePush { service_jid } => {
            let iq = st.push.build_enable_iq(service_jid.as_str());
            push_el(outbox, iq);
            CommandOutcome::Handled
        },
        XmppCommand::DisablePush { service_jid } => {
            let iq = st.push.build_disable_iq(service_jid.as_str());
            push_el(outbox, iq);
            CommandOutcome::Handled
        },
        XmppCommand::DisableAllPush => {
            push_el(outbox, st.push.build_disable_all_iq());
            CommandOutcome::Handled
        },
        XmppCommand::FetchOwnVCard => {
            let (_, iq) = st.vcard_edit.build_get();
            push_el(outbox, iq);
            CommandOutcome::Handled
        },
        XmppCommand::SetOwnVCard(fields) => {
            let (_, iq) = st.vcard_edit.build_set(&fields);
            push_el(outbox, iq);
            CommandOutcome::Handled
        },
        XmppCommand::ExecuteAdhocCommand { to_jid, node } => {
            let (_, iq) = st.adhoc.build_execute(to_jid.as_str(), node.as_str());
            push_el(outbox, iq);
            CommandOutcome::Handled
        },
        XmppCommand::ContinueAdhocCommand { to_jid, node, session_id, fields } => {
            let (_, iq) = st.adhoc.build_continue(to_jid.as_str(), node.as_str(), session_id.as_str(), fields.as_slice());
            push_el(outbox, iq);
            CommandOutcome::Handled
        },
        XmppCommand::CancelAdhocCommand { to_jid, node, session_id } => {
            let (_, iq) = st.adhoc.build_cancel(to_jid.as_str(), node.as_str(), session_id.as_str());
            push_el(outbox, iq);
            CommandOutcome::Handled
        },
        XmppCommand::IgnoreUser { room_jid, user_jid } => {
            st.ignore.add(room_jid.as_str(), user_jid.as_str());
            push_el(outbox, st.ignore.build_publish_iq(room_jid.as_str()));
            CommandOutcome::Handled
        },
        XmppCommand::UnignoreUser { room_jid, user_jid } => {
            st.ignore.remove(room_jid.as_str(), user_jid.as_str());
            push_el(outbox, st.ignore.build_publish_iq(room_jid.as_str()));
            CommandOutcome::Handled
        },
        XmppCommand::SyncConversations(conversations) => {
            push_el(outbox, st.conv_sync.build_publish_iq(conversations.as_slice()));
            CommandOutcome::Handled
        },
        XmppCommand::FetchConversations => {
            push_el(outbox, st.conv_sync.build_fetch_iq());
            CommandOutcome::Handled
        },
        XmppCommand::ChangePassword { username, new_password } => {
            let (_, iq) = st.account.build_change_password_iq(username.as_str(), new_password.as_str());
            push_el(outbox, iq);
            CommandOutcome::Handled
        },
        XmppCommand::DeleteAccount => {
            let (_, iq) = st.account.build_delete_account_iq();
            push_el(outbox, iq);
            CommandOutcome::Handled
        },
        XmppCommand::StartMamSync(conversations) => {
            let pairs = st.sync.start_sync(conversations.as_slice());
            let ghost pv = pairs@;
            let mut i: usize = 0;
            while i < pairs.len()
                invariant
                    i <= pairs.len(),
                    pv == pairs@,
                    views(outbox@).len() == out0.len() + i,
                    views(outbox@).take(out0.len() as int) == out0,
                    forall|k: int| 0 <= k < i ==> #[trigger] views(outbox@)[out0.len() + k] == pv[k].1@,
                decreases pairs.len() - i,
            {
                let ghost before = views(outbox@);
                push_el(outbox, pairs[i].1.clone());
                assert(views(outbox@).take(out0.len() as int) =~= before.take(out0.len() as int));
                i += 1;
            }
            CommandOutcome::Handled
        },
    }
}
} // verus!
