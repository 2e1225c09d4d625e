//! The remote service's data shapes and the client's identity. The calls
//! themselves travel over the wire and live in the application shell; here
//! stand the payload types the logic builds, and the client value whose
//! fields and endpoint address are computed from the credentials.

use crate::numfmt::{dec_digits, digit_char};
use vstd::prelude::*;

verus! {

/// A wall-clock instant truncated to whole seconds, held as plain fields so
/// the payload builders can be reasoned about.
pub struct DateTime {
    pub year: u32,
    pub month: u32,
    pub day: u32,
    pub hour: u32,
    pub minute: u32,
    pub second: u32,
}

impl DateTime {
    /// The calendar ranges a clock reading satisfies.
    pub open spec fn valid(self) -> bool {
        &&& 1 <= self.month <= 12
        &&& 1 <= self.day <= 31
        &&& self.hour < 24
        &&& self.minute < 60
        &&& self.second < 60
    }
}

/// A value below one hundred as two decimal digits, leading zero included.
pub open spec fn two_digits(n: nat) -> Seq<char> {
    seq![digit_char(n / 10), digit_char(n % 10)]
}

/// The date-time text the remote service accepts for a creation time:
/// year, month, day, then hours, minutes, seconds, zero-padded.
pub open spec fn iso_of(dt: DateTime) -> Seq<char> {
    dec_digits(dt.year as nat) + "-"@ + two_digits(dt.month as nat) + "-"@ + two_digits(
        dt.day as nat,
    ) + "T"@ + two_digits(dt.hour as nat) + ":"@ + two_digits(dt.minute as nat) + ":"@
        + two_digits(dt.second as nat)
}

/// Append a value below one hundred as exactly two decimal digits.
fn push_2d(n: u32, out: &mut String)
    requires
        n < 100,
    ensures
        final(out)@ == old(out)@ + two_digits(n as nat),
{
    crate::numfmt::push_dec(n / 10, out);
    crate::numfmt::push_dec(n % 10, out);
    proof {
        assert(old(out)@ + dec_digits((n / 10) as nat) + dec_digits((n % 10) as nat) =~= old(
            out,
        )@ + two_digits(n as nat));
    }
}

/// Render a clock reading in the service's date-time format.
pub fn format_datetime(dt: &DateTime) -> (r: String)
    requires
        dt.month < 100,
        dt.day < 100,
        dt.hour < 100,
        dt.minute < 100,
        dt.second < 100,
    ensures
        r@ == iso_of(*dt),
{
    proof {
        reveal_strlit("-");
        reveal_strlit("T");
        reveal_strlit(":");
    }
    let mut out = crate::numfmt::u32_to_string(dt.year);
    out.append("-");
    push_2d(dt.month, &mut out);
    out.append("-");
    push_2d(dt.day, &mut out);
    out.append("T");
    push_2d(dt.hour, &mut out);
    out.append(":");
    push_2d(dt.minute, &mut out);
    out.append(":");
    push_2d(dt.second, &mut out);
    proof {
        assert(out@ =~= iso_of(*dt));
    }
    out
}

/// A post payload as the remote service takes and returns it.
#[allow(non_snake_case)]
pub struct Post {
    pub postid: String,
    pub dateCreated: DateTime,
    pub description: String,
    pub title: String,
    pub categories: Vec<String>,
}

impl Post {
    /// An empty payload to fill in.
    pub fn empty() -> (r: Post)
        ensures
            r.postid@ == Seq::<char>::empty(),
            r.description@ == Seq::<char>::empty(),
            r.title@ == Seq::<char>::empty(),
            r.categories@.len() == 0,
    {
        Post {
            postid: String::new(),
            dateCreated: DateTime { year: 0, month: 1, day: 1, hour: 0, minute: 0, second: 0 },
            description: String::new(),
            title: String::new(),
            categories: Vec::new(),
        }
    }
}

/// The payload for a brand-new article: its file content as body, its file
/// name as title, its parent directory's name and the fixed import marker
/// as categories, and the given clock reading as creation time.
pub fn build_new_post(content: String, category: String, title: String, now: DateTime) -> (r:
    Post)
    ensures
        r.description@ == content@,
        r.title@ == title@,
        r.categories@.len() == 2,
        r.categories@[0]@ == category@,
        r.categories@[1]@ == "[Markdown]"@,
        r.dateCreated == now,
{
    let mut categories: Vec<String> = Vec::new();
    categories.push(category);
    categories.push(String::from_str("[Markdown]"));
    Post { postid: String::new(), dateCreated: now, description: content, title, categories }
}

/// The payload for editing an already-known article: new body, the derived
/// category, the file name as title.
pub fn build_edit_post(content: String, category: String, title: String) -> (r: Post)
    ensures
        r.description@ == content@,
        r.title@ == title@,
        r.categories@.len() == 1,
        r.categories@[0]@ == category@,
{
    let mut categories: Vec<String> = Vec::new();
    categories.push(category);
    Post {
        postid: String::new(),
        dateCreated: DateTime { year: 0, month: 1, day: 1, hour: 0, minute: 0, second: 0 },
        description: content,
        title,
        categories,
    }
}

/// The credential triple the user blogs call takes.
pub struct UserBlogs {
    pub app_key: String,
    pub username: String,
    pub password: String,
}

/// One blog of the authenticated user.
#[allow(non_snake_case)]
pub struct BlogInfo {
    pub blogid: String,
    pub url: String,
    pub blogName: String,
}

/// One category as the service lists it.
#[allow(non_snake_case)]
pub struct CategoryInfo {
    pub description: String,
    pub htmlUrl: String,
    pub rssUrl: String,
    pub title: String,
    pub categoryid: String,
}

/// A category creation payload.
pub struct WpCategory {
    pub name: String,
    pub parent_id: i32,
}

/// The ghost image of the remote client: its credentials and the endpoint
/// address derived from the username.
pub ghost struct MetaWeblogView {
    pub app_key: Seq<char>,
    pub username: Seq<char>,
    pub password: Seq<char>,
    pub blogid: Seq<char>,
    pub url: Seq<char>,
}

/// The remote service client's identity: credentials, blog identifier, and
/// the endpoint address. The calls made with it live in the application
/// shell.
pub struct MetaWeblog {
    app_key: String,
    username: String,
    password: String,
    blogid: String,
    url: String,
}

impl View for MetaWeblog {
    type V = MetaWeblogView;

    closed spec fn view(&self) -> MetaWeblogView {
        MetaWeblogView {
            app_key: self.app_key@,
            username: self.username@,
            password: self.password@,
            blogid: self.blogid@,
            url: self.url@,
        }
    }
}

impl MetaWeblog {
    /// Build a client for one user: the application key doubles the
    /// username, and the endpoint address is the service root joined with
    /// the username.
    pub fn new(username: String, password: String, blogid: String) -> (r: MetaWeblog)
        ensures
            r@.username == username@,
            r@.app_key == username@,
            r@.password == password@,
            r@.blogid == blogid@,
            r@.url == "https://rpc.cnblogs.com/metaweblog"@ + "/"@ + username@,
    {
        proof {
            reveal_strlit("/");
        }
        let mut url = String::from_str("https://rpc.cnblogs.com/metaweblog");
        url.append("/");
        url.append(username.as_str());
        MetaWeblog {
            app_key: username.clone(),
            username,
            password,
            blogid,
            url,
        }
    }

    /// The endpoint address the client calls.
    pub fn url(&self) -> (r: &String)
        ensures
            r@ == self@.url,
    {
        &self.url
    }

    /// The username the client authenticates as.
    pub fn username(&self) -> (r: &String)
        ensures
            r@ == self@.username,
    {
        &self.username
    }

    /// The password the client authenticates with.
    pub fn password(&self) -> (r: &String)
        ensures
            r@ == self@.password,
    {
        &self.password
    }

    /// The application key sent alongside the credentials.
    pub fn app_key(&self) -> (r: &String)
        ensures
            r@ == self@.app_key,
    {
        &self.app_key
    }

    /// The blog identifier the calls address.
    pub fn blogid(&self) -> (r: &String)
        ensures
            r@ == self@.blogid,
    {
        &self.blogid
    }
}

/// The user configuration as persisted between runs: the credential pair,
/// the resolved blog identifier, and the master record's post identifier.
pub struct UserInfo {
    pub username: String,
    pub password: String,
    pub blogid: String,
    pub postid: i32,
}

} // verus!
