//! The names of the sidecar's methods.

use vstd::prelude::*;

verus! {

pub const INIT: &'static str = "wx.init";

pub const ACTIVATE: &'static str = "wx.activate";

pub const GET_MY_INFO: &'static str = "wx.get_my_info";

pub const IS_ONLINE: &'static str = "wx.is_online";

pub const MSG_SEND: &'static str = "msg.send";

pub const FILE_SEND: &'static str = "file.send";

pub const MSG_QUOTE: &'static str = "msg.quote";

pub const MSG_FORWARD: &'static str = "msg.forward";

pub const CHAT_OPEN: &'static str = "chat.open";

pub const CHAT_SEARCH: &'static str = "chat.search";

pub const CHAT_HISTORY: &'static str = "chat.history";

pub const LISTEN_ADD: &'static str = "listen.add";

pub const LISTEN_REMOVE: &'static str = "listen.remove";

pub const LISTEN_LIST: &'static str = "listen.list";

pub const FRIENDS_NEW_REQUESTS: &'static str = "friends.new_requests";

pub const FRIEND_ACCEPT: &'static str = "friend.accept";

pub const MOMENTS_GET: &'static str = "moments.get";

pub const MOMENTS_PUBLISH: &'static str = "moments.publish";

pub const MEDIA_DOWNLOAD: &'static str = "media.download";

pub const VOICE_TO_TEXT: &'static str = "voice.to_text";

pub const UTIL_SLEEP: &'static str = "util.sleep";

} // verus!
