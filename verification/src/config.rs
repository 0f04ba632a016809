//! The settings of the collector and the alphabets it draws from.

use crate::table::Table;
use vstd::prelude::*;
use vstd::string::{StringExecFns, StringSliceAdditionalSpecFns};
use vstd::utf8::{is_ascii_chars, is_ascii_chars_encode_utf8};

verus! {

/// The settings that are read once when the collector starts.
pub struct Config {
    pub bot_token: String,
    pub group_id: String,
    pub deploy_key: String,
    /// The deploy script of each repository that may be deployed, by the
    /// repository's name.
    pub deploy_repo: Table<String>,
}

/// Where messages for the operators' group are sent: the start of the
/// address, and what follows the bot's token in it.
pub open spec fn message_address(bot_token: Seq<char>, group_id: Seq<char>) -> Seq<char> {
    "https://api.telegram.org/bot"@ + bot_token + "/sendMessage?chat_id="@ + group_id
        + "&message_thread_id=438"@
}

impl Config {
    /// The directory of the records that are served.
    pub const RECORD_DIR: &'static str = "record";

    /// The characters of a verification code.
    pub const CODE_ABC: &'static str = "0123456789";

    /// The characters of a user's token.
    pub const TOKEN_ABC: &'static str =
        "!@#$%^&*_+abcdefghijklmnopqrstuvwxyzABCDEFGHIJKLMNOPQRSTUVWXYZ0123456789!@#$%^&*_+";

    /// The characters of a site's token.
    pub const SITE_TOKEN_ABC: &'static str =
        "abcdefghijklmnopqrstuvwxyzABCDEFGHMNOPQRSTUVWXYZ0123456789";

    /// The characters of a site's name.
    pub const SITE_NAME_ABC: &'static str =
        "abcdefghijklmnopqrstuvwxyzABCDEFGHIJKLMNOPQRSTUVWXYZ0123456789-_.";

    /// The address to which messages for the operators' group are sent.
    pub fn message_url(&self) -> (r: String)
        ensures
            r@ == message_address(self.bot_token@, self.group_id@),
    {
        let mut url = String::from_str("https://api.telegram.org/bot");
        url.append(self.bot_token.as_str());
        url.append("/sendMessage?chat_id=");
        url.append(self.group_id.as_str());
        url.append("&message_thread_id=438");
        url
    }
}

/// Every alphabet is of ASCII: it has one byte for each of its characters.
pub proof fn lemma_alphabets()
    ensures
        Config::CODE_ABC.spec_bytes().len() == 10,
        Config::TOKEN_ABC.spec_bytes().len() == 82,
        Config::SITE_TOKEN_ABC.spec_bytes().len() == 58,
        Config::SITE_NAME_ABC.spec_bytes().len() == 65,
{
    reveal_strlit("0123456789");
    reveal_strlit(
        "!@#$%^&*_+abcdefghijklmnopqrstuvwxyzABCDEFGHIJKLMNOPQRSTUVWXYZ0123456789!@#$%^&*_+",
    );
    reveal_strlit("abcdefghijklmnopqrstuvwxyzABCDEFGHMNOPQRSTUVWXYZ0123456789");
    reveal_strlit("abcdefghijklmnopqrstuvwxyzABCDEFGHIJKLMNOPQRSTUVWXYZ0123456789-_.");
    assert(is_ascii_chars(Config::CODE_ABC@));
    assert(is_ascii_chars(Config::TOKEN_ABC@));
    assert(is_ascii_chars(Config::SITE_TOKEN_ABC@));
    assert(is_ascii_chars(Config::SITE_NAME_ABC@));
    is_ascii_chars_encode_utf8(Config::CODE_ABC@);
    is_ascii_chars_encode_utf8(Config::TOKEN_ABC@);
    is_ascii_chars_encode_utf8(Config::SITE_TOKEN_ABC@);
    is_ascii_chars_encode_utf8(Config::SITE_NAME_ABC@);
}

} // verus!
