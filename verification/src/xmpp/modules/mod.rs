//! One module per XMPP extension.
pub mod account;
pub mod adhoc;
pub mod avatar;
pub mod blocking;
pub mod bob;
pub mod bookmarks;
pub mod catchup;
pub mod command_palette;
pub mod console;
pub mod conversation_sync;
pub mod disco;
pub mod entity_time;
pub mod file_upload;
pub mod ignore;
pub mod mam;
pub mod message_mutations;
pub mod muc;
pub mod muc_admin;
pub mod muc_config;
pub mod muc_voice;
pub mod omemo;
pub mod presence_machine;
pub mod push;
pub mod push_cleanup;
pub mod registration;
pub mod spam_report;
pub mod stickers;
pub mod stream_mgmt;
pub mod sync;
pub mod vcard_edit;
pub mod xmpp_uri;

use vstd::prelude::*;

verus! {

pub const NS_CLIENT: &'static str = "jabber:client";
pub const NS_DATA: &'static str = "jabber:x:data";
pub const NS_FORWARD: &'static str = "urn:xmpp:forward:0";
pub const NS_MAM: &'static str = "urn:xmpp:mam:2";
pub const NS_MUC: &'static str = "http://jabber.org/protocol/muc";
pub const NS_MUC_USER: &'static str = "http://jabber.org/protocol/muc#user";
pub const NS_MUC_ADMIN: &'static str = "http://jabber.org/protocol/muc#admin";
pub const NS_MUC_OWNER: &'static str = "http://jabber.org/protocol/muc#owner";
pub const NS_X_CONFERENCE: &'static str = "jabber:x:conference";
pub const NS_PUBSUB: &'static str = "http://jabber.org/protocol/pubsub";
pub const NS_VCARD: &'static str = "vcard-temp";

} // verus!
