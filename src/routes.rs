//! Content of the served pages.

use rand::distributions::Distribution;
use vstd::prelude::*;
use vstd::string::StrSliceExecFns;
use vstd::utf8::encode_utf8;

verus! {

/// The page served at `/`.
pub const ROOT_PAGE: &'static str = r#"<html><body>
    <strong>This is very simple HTTP server.</strong>
    <br/>
    It supports only GET request on following URIs:
    <ul>
        <a href="/"><tt>/</tt></a> - this root page
    </ul>
    <ul>
        <a href="/hello"><tt>/hello</tt></a> - prints Hello world! message.
    </ul>
    <ul>
        <a href="/lorem"><tt>/lorem</tt></a> - prints some lorem ipsum text.
    </ul>
    <ul>
        <a href="/joke"><tt>/joke</tt></a> - prints a random joke.
    </ul>
    </body></html>"#;

/// The page served at `/hello`.
pub const HELLO_PAGE: &'static str = "<html><body>Hello world!</body></html>";

/// The page served at `/lorem`.
pub const LOREM_PAGE: &'static str = r#"
    <p>Lorem ipsum dolor sit amet, consectetuer adipiscing elit. Nullam rhoncus aliquam metus.
    Nullam eget nisl.
    Quis autem vel eum iure reprehenderit qui in ea voluptate velit esse quam nihil molestiae consequatur, vel illum qui dolorem eum fugiat quo voluptas nulla pariatur? Sed elit dui, pellentesque a, faucibus vel, interdum nec, diam.
    Lorem ipsum dolor sit amet, consectetuer adipiscing elit.
    Nulla quis diam.
    Nullam justo enim, consectetuer nec, ullamcorper ac, vestibulum in, elit.
    Nam sed tellus id magna elementum tincidunt.
    Donec iaculis gravida nulla.
    Praesent in mauris eu tortor porttitor accumsan.
    Aliquam erat volutpat.
    </p>
    "#;

/// The text before the joke on the `/joke` page.
pub const JOKE_HEAD: &'static str = r#"<html><body>
    <strong>"#;

/// The text after the joke on the `/joke` page.
pub const JOKE_TAIL: &'static str = r#"</strong>
    </br>
    </br>
    Credits: http://attrition.org/misc/ee/protolol.txt
    </body></html>"#;

/// How many jokes there are to pick from.
pub const JOKE_COUNT: usize = 15;

/// The text of joke `i`.
pub open spec fn joke_text(i: int) -> Seq<char> {
    if i == 0 {
        "An IPv4 address space walks into a bar, \"A strong CIDR please. I'm exhausted.\""@
    } else if i == 1 {
        "A TCP packet walks into a bar \"I want a beer.\" Bartender responds \"You want a beer?\" Packet responds \"I want a beer.\""@
    } else if i == 2 {
        "DNS servers must feel sad, nobody calls them by their name."@
    } else if i == 3 {
        "I'd tell you the one about the CIDR block, but you're too classy."@
    } else if i == 4 {
        "A UDP packet walks into a bar without a checksum. Nobody cares."@
    } else if i == 5 {
        "Chuck Norris doesn't do TCP handshake - he does TCP roundhouse-kick to initiate the connection"@
    } else if i == 6 {
        "Doctor: What seems to be the problem? Router: It hurts when IP."@
    } else if i == 7 {
        "I tried to come up with an IPv4 joke, but the good ones were all already exhausted."@
    } else if i == 8 {
        "The best thing about UDP jokes is that I don't care if you get them or not."@
    } else if i == 9 {
        "People who tell routing jokes always exceed their time-to-live."@
    } else if i == 10 {
        "The problem with TCP/IP jokes is that when I tell them, all I want is an ACK but usually get FINs and RSTs"@
    } else if i == 11 {
        "I had a funny UDP joke to tell, but I lost it somewhere&#8230;"@
    } else if i == 12 {
        "The worst part about HTTP jokes is that you can never remember in which state you heard the last one."@
    } else if i == 13 {
        "HTTP jokes are rarely better than OK"@
    } else {
        "I really don't GET HTTP 404 jokes."@
    }
}

/// The bytes of the `/joke` page that shows joke `i`.
pub open spec fn joke_page_bytes(i: int) -> Seq<u8> {
    encode_utf8(JOKE_HEAD@) + encode_utf8(joke_text(i)) + encode_utf8(JOKE_TAIL@)
}

/// Relies on rand's `Uniform::new(0, bound)` sampled with `thread_rng()`: the
/// value lies in `[0, bound)`. `Uniform::new` panics when `bound` is 0.
#[verifier::external_body]
fn random_below(bound: usize) -> (r: usize)
    requires
        bound > 0,
    ensures
        r < bound,
{
    rand::distributions::Uniform::new(0, bound).sample(&mut rand::thread_rng())
}

pub fn route_root() -> (r: Vec<u8>)
    ensures
        r@ == encode_utf8(ROOT_PAGE@),
{
    ROOT_PAGE.as_bytes_vec()
}

pub fn route_hello() -> (r: Vec<u8>)
    ensures
        r@ == encode_utf8(HELLO_PAGE@),
{
    HELLO_PAGE.as_bytes_vec()
}

pub fn route_lorem() -> (r: Vec<u8>)
    ensures
        r@ == encode_utf8(LOREM_PAGE@),
{
    LOREM_PAGE.as_bytes_vec()
}

/// Joke number `i`.
pub fn joke(i: usize) -> (r: &'static str)
    requires
        i < JOKE_COUNT,
    ensures
        r@ == joke_text(i as int),
{
    if i == 0 {
        "An IPv4 address space walks into a bar, \"A strong CIDR please. I'm exhausted.\""
    } else if i == 1 {
        "A TCP packet walks into a bar \"I want a beer.\" Bartender responds \"You want a beer?\" Packet responds \"I want a beer.\""
    } else if i == 2 {
        "DNS servers must feel sad, nobody calls them by their name."
    } else if i == 3 {
        "I'd tell you the one about the CIDR block, but you're too classy."
    } else if i == 4 {
        "A UDP packet walks into a bar without a checksum. Nobody cares."
    } else if i == 5 {
        "Chuck Norris doesn't do TCP handshake - he does TCP roundhouse-kick to initiate the connection"
    } else if i == 6 {
        "Doctor: What seems to be the problem? Router: It hurts when IP."
    } else if i == 7 {
        "I tried to come up with an IPv4 joke, but the good ones were all already exhausted."
    } else if i == 8 {
        "The best thing about UDP jokes is that I don't care if you get them or not."
    } else if i == 9 {
        "People who tell routing jokes always exceed their time-to-live."
    } else if i == 10 {
        "The problem with TCP/IP jokes is that when I tell them, all I want is an ACK but usually get FINs and RSTs"
    } else if i == 11 {
        "I had a funny UDP joke to tell, but I lost it somewhere&#8230;"
    } else if i == 12 {
        "The worst part about HTTP jokes is that you can never remember in which state you heard the last one."
    } else if i == 13 {
        "HTTP jokes are rarely better than OK"
    } else {
        "I really don't GET HTTP 404 jokes."
    }
}

/// The `/joke` page showing joke number `i`.
pub fn joke_page(i: usize) -> (r: Vec<u8>)
    requires
        i < JOKE_COUNT,
    ensures
        r@ == joke_page_bytes(i as int),
{
    let mut bytes = JOKE_HEAD.as_bytes_vec();
    let mut middle = joke(i).as_bytes_vec();
    let mut tail = JOKE_TAIL.as_bytes_vec();
    bytes.append(&mut middle);
    bytes.append(&mut tail);
    bytes
}

/// The `/joke` page showing a joke picked at random.
pub fn route_joke() -> (r: Vec<u8>)
    ensures
        exists|i: int| 0 <= i < JOKE_COUNT && r@ == joke_page_bytes(i),
{
    let i = random_below(JOKE_COUNT);
    joke_page(i)
}

} // verus!
