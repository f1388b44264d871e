//! Announcements to the master server: the address that is requested to register a tunnel.

use vstd::prelude::*;

use vstd::utf8::{encode_scalar, encode_utf8};

use crate::text::{
    chars_of, decimal, law_decimal_notation, law_fields_are_concatenated,
    law_text_without_separator_is_one_field, push_decimal, split,
};

verus! {

/// The longest address that is requested, in bytes.
pub const MAX_URL_LENGTH: usize = 2000;

/// The longest server name that is announced, in bytes.
pub const MAX_NAME_LENGTH: usize = 100;

/// The hexadecimal digit with value `n`.
pub open spec fn hex_digit(n: int) -> char {
    if n < 10 {
        ('0' as u32 + n) as char
    } else {
        ('A' as u32 + n - 10) as char
    }
}

/// An ASCII letter or digit.
pub open spec fn is_alphanumeric(byte: u8) -> bool {
    0x30 <= byte <= 0x39 || 0x41 <= byte <= 0x5a || 0x61 <= byte <= 0x7a
}

/// A letter, a digit, or one of `-`, `.`, `_` and `~`.
pub open spec fn is_unreserved(byte: u8) -> bool {
    is_alphanumeric(byte) || byte == 0x2d || byte == 0x2e || byte == 0x5f || byte == 0x7e
}

/// A byte that stays as it is, or its escape sequence.
pub open spec fn percent_encoded_byte(byte: u8, keep: spec_fn(u8) -> bool) -> Seq<char> {
    if keep(byte) {
        seq![byte as char]
    } else {
        seq!['%', hex_digit(byte as int / 16), hex_digit(byte as int % 16)]
    }
}

/// Percent encoding of the bytes that `keep` does not allow.
pub open spec fn percent_encoded(bytes: Seq<u8>, keep: spec_fn(u8) -> bool) -> Seq<char>
    decreases bytes.len(),
{
    if bytes.len() == 0 {
        Seq::empty()
    } else {
        percent_encoded_byte(bytes[0], keep) + percent_encoded(bytes.drop_first(), keep)
    }
}

/// Percent encoding of everything but ASCII letters and digits.
pub open spec fn encoded_strictly(text: Seq<char>) -> Seq<char> {
    percent_encoded(encode_utf8(text), |byte: u8| is_alphanumeric(byte))
}

/// Percent encoding of everything but unreserved characters.
pub open spec fn encoded_component(text: Seq<char>) -> Seq<char> {
    percent_encoded(encode_utf8(text), |byte: u8| is_unreserved(byte))
}

/// `percent_encoding::utf8_percent_encode` with the set `NON_ALPHANUMERIC`: every byte of the
/// UTF-8 form but ASCII letters and digits becomes `%` and two upper-case hexadecimal digits.
#[verifier::external_body]
pub(crate) fn encode_strictly(text: &str) -> (encoded: String)
    ensures
        encoded@ == encoded_strictly(text@),
{
    percent_encoding::utf8_percent_encode(text, percent_encoding::NON_ALPHANUMERIC).to_string()
}

/// `urlencoding::encode`: every byte of the UTF-8 form but ASCII letters and digits, `-`, `.`,
/// `_` and `~` becomes `%` and two upper-case hexadecimal digits.
#[verifier::external_body]
pub(crate) fn encode_component(text: &str) -> (encoded: String)
    ensures
        encoded@ == encoded_component(text@),
{
    urlencoding::encode(text).into_owned()
}

/// The part of a name that is announced: as many whole characters as fit.
pub open spec fn is_announced_name(part: Seq<char>, name: Seq<char>) -> bool {
    exists|n: int|
        0 <= n <= name.len() && part == #[trigger] name.take(n) && encode_utf8(part).len()
            <= MAX_NAME_LENGTH && (n < name.len() ==> encode_utf8(name.take(n + 1)).len()
            > MAX_NAME_LENGTH)
}

/// The encoding of one more character is appended to that of the others.
proof fn lemma_encode_push(chars: Seq<char>, c: char)
    ensures
        encode_utf8(chars.push(c)) == encode_utf8(chars) + encode_scalar(c as u32),
    decreases chars.len(),
{
    let longer = chars.push(c);
    if chars.len() == 0 {
        assert(longer.drop_first() =~= Seq::<char>::empty());
        assert(encode_utf8(longer.drop_first()) =~= Seq::<u8>::empty());
        assert(encode_utf8(chars) =~= Seq::<u8>::empty());
        assert(encode_utf8(longer) =~= encode_scalar(c as u32));
        assert(encode_utf8(chars) + encode_scalar(c as u32) =~= encode_scalar(c as u32));
    } else {
        lemma_encode_push(chars.drop_first(), c);
        assert(longer.drop_first() =~= chars.drop_first().push(c));
        assert(encode_utf8(longer) =~= encode_utf8(chars) + encode_scalar(c as u32));
    }
}

/// Number of bytes in the UTF-8 form of a character.
fn utf8_width(c: char) -> (n: usize)
    ensures
        n == encode_scalar(c as u32).len(),
        1 <= n <= 4,
{
    let u: u32 = c as u32;
    if u <= 0x7f {
        1
    } else if u <= 0x7ff {
        2
    } else if u <= 0xffff {
        3
    } else {
        4
    }
}

/// The part of a server name that is announced.
pub fn announced_name(name: &str) -> (part: String)
    ensures
        is_announced_name(part@, name@),
{
    let chars = chars_of(name);
    let mut length: usize = 0;
    let mut n: usize = 0;
    let mut part = String::new();
    assert(name@.take(0) =~= Seq::<char>::empty());
    while n < chars.len()
        invariant
            chars@ == name@,
            n <= chars@.len(),
            part@ == name@.take(n as int),
            length == encode_utf8(part@).len(),
            length <= MAX_NAME_LENGTH,
        decreases chars@.len() - n,
    {
        let width: usize = utf8_width(chars[n]);
        proof {
            lemma_encode_push(part@, chars@[n as int]);
            assert(name@.take(n + 1) =~= part@.push(chars@[n as int]));
        }
        if length + width > MAX_NAME_LENGTH {
            assert(is_announced_name(part@, name@));
            return part;
        }
        part.push(chars[n]);
        length = length + width;
        n = n + 1;
    }
    part
}

/// What is announced of a tunnel. The name and the password are percent-encoded.
pub struct Announcement {
    pub version: u64,
    pub name: Seq<char>,
    pub port: u16,
    pub clients: nat,
    pub max_clients: nat,
    pub password: Seq<char>,
    pub maintenance: bool,
}

/// The address that is requested to announce a tunnel at the master server `base`.
pub open spec fn announce_url(base: Seq<char>, tunnel: Announcement) -> Seq<char> {
    base + "?version="@ + decimal(tunnel.version as nat) + "&name="@ + tunnel.name + "&port="@
        + decimal(tunnel.port as nat) + "&clients="@ + decimal(tunnel.clients) + "&maxclients="@
        + decimal(tunnel.max_clients) + "&masterpw="@ + tunnel.password + "&maintenance="@ + (
    if tunnel.maintenance {
        "1"@
    } else {
        "0"@
    })
}

/// Builds the address that announces a tunnel. The name and the password are percent-encoded.
pub(crate) fn build_url(
    base: &str,
    version: u64,
    encoded_name: &str,
    port: u16,
    clients: usize,
    max_clients: usize,
    encoded_password: &str,
    maintenance: bool,
) -> (url: String)
    ensures
        url@ == announce_url(
            base@,
            Announcement {
                version,
                name: encoded_name@,
                port,
                clients: clients as nat,
                max_clients: max_clients as nat,
                password: encoded_password@,
                maintenance,
            },
        ),
{
    let mut url = String::new();
    url.append(base);
    assert(url@ =~= base@);
    url.append("?version=");
    push_decimal(&mut url, version);
    url.append("&name=");
    url.append(encoded_name);
    url.append("&port=");
    push_decimal(&mut url, port as u64);
    url.append("&clients=");
    push_decimal(&mut url, clients as u64);
    url.append("&maxclients=");
    push_decimal(&mut url, max_clients as u64);
    url.append("&masterpw=");
    url.append(encoded_password);
    url.append("&maintenance=");
    if maintenance {
        url.append("1");
    } else {
        url.append("0");
    }
    url
}

/// Length of the UTF-8 form of a text, in bytes.
pub fn byte_length(text: &str) -> (n: usize)
    ensures
        n == encode_utf8(text@).len(),
{
    text.as_bytes().len()
}

/// What is announced of a tunnel with the given server name and password.
pub open spec fn announcement(
    version: u64,
    part: Seq<char>,
    port: u16,
    clients: nat,
    max_clients: nat,
    password: Seq<char>,
    maintenance: bool,
) -> Announcement {
    Announcement {
        version,
        name: encoded_strictly(part),
        port,
        clients,
        max_clients,
        password: encoded_strictly(password),
        maintenance,
    }
}

/// `url` is requested to announce a tunnel, or nothing is: because announcements are turned off,
/// or because the address would be too long.
pub open spec fn is_heartbeat_url(
    url: Option<String>,
    disabled: bool,
    base: Seq<char>,
    name: Seq<char>,
    version: u64,
    port: u16,
    clients: nat,
    max_clients: nat,
    password: Seq<char>,
    maintenance: bool,
) -> bool {
    if disabled {
        url is None
    } else {
        exists|part: Seq<char>| #[trigger]
            is_announced_name(part, name) && ({
                let full = announce_url(
                    base,
                    announcement(
                        version,
                        part,
                        port,
                        clients,
                        max_clients,
                        password,
                        maintenance,
                    ),
                );
                if encode_utf8(full).len() > MAX_URL_LENGTH {
                    url is None
                } else {
                    url matches Some(text) && text@ == full
                }
            })
    }
}

/// The address that is requested to announce a tunnel, if one is.
pub(crate) fn heartbeat_url(
    disabled: bool,
    base: &str,
    name: &str,
    version: u64,
    port: u16,
    clients: usize,
    max_clients: usize,
    password: &str,
    maintenance: bool,
) -> (url: Option<String>)
    ensures
        is_heartbeat_url(
            url,
            disabled,
            base@,
            name@,
            version,
            port,
            clients as nat,
            max_clients as nat,
            password@,
            maintenance,
        ),
{
    if disabled {
        return None;
    }
    let part = announced_name(name);
    let encoded_name = encode_strictly(part.as_str());
    let encoded_password = encode_strictly(password);
    let url = build_url(
        base,
        version,
        encoded_name.as_str(),
        port,
        clients,
        max_clients,
        encoded_password.as_str(),
        maintenance,
    );
    if byte_length(url.as_str()) > MAX_URL_LENGTH {
        None
    } else {
        Some(url)
    }
}

/// More characters have a longer encoding.
proof fn lemma_encoding_grows(name: Seq<char>, n: int, m: int)
    requires
        0 <= n <= m <= name.len(),
    ensures
        encode_utf8(name.take(n)).len() <= encode_utf8(name.take(m)).len(),
    decreases m - n,
{
    if n < m {
        lemma_encoding_grows(name, n, m - 1);
        lemma_encode_push(name.take(m - 1), name[m - 1]);
        assert(name.take(m) =~= name.take(m - 1).push(name[m - 1]));
    }
}

/// Only one part of a name is announced.
pub proof fn law_announced_name_is_unique(name: Seq<char>, a: Seq<char>, b: Seq<char>)
    requires
        is_announced_name(a, name),
        is_announced_name(b, name),
    ensures
        a == b,
{
    let n = choose|n: int|
        0 <= n <= name.len() && a == #[trigger] name.take(n) && encode_utf8(a).len()
            <= MAX_NAME_LENGTH && (n < name.len() ==> encode_utf8(name.take(n + 1)).len()
            > MAX_NAME_LENGTH);
    let m = choose|m: int|
        0 <= m <= name.len() && b == #[trigger] name.take(m) && encode_utf8(b).len()
            <= MAX_NAME_LENGTH && (m < name.len() ==> encode_utf8(name.take(m + 1)).len()
            > MAX_NAME_LENGTH);
    if n < m {
        lemma_encoding_grows(name, n + 1, m);
    } else if m < n {
        lemma_encoding_grows(name, m + 1, n);
    }
}

/// A short name is announced whole.
pub proof fn law_short_name_is_announced_whole(name: Seq<char>)
    requires
        encode_utf8(name).len() <= MAX_NAME_LENGTH,
    ensures
        is_announced_name(name, name),
{
    assert(name.take(name.len() as int) =~= name);
}

/// Percent encoding leaves nothing but unreserved characters and escape sequences, so that an
/// encoded value can never end the field that it stands in or begin another one.
pub proof fn law_encoded_value_is_one_field(text: Seq<char>, i: int)
    ensures
        0 <= i < encoded_strictly(text).len() ==> {
            let c = encoded_strictly(text)[i];
            c == '%' || (c as u32 <= 0xff && is_alphanumeric(c as u8))
        },
        0 <= i < encoded_component(text).len() ==> {
            let c = encoded_component(text)[i];
            c == '%' || (c as u32 <= 0xff && is_unreserved(c as u8))
        },
{
    if 0 <= i < encoded_strictly(text).len() {
        lemma_encoded_characters(encode_utf8(text), |byte: u8| is_alphanumeric(byte), i);
    }
    if 0 <= i < encoded_component(text).len() {
        lemma_encoded_characters(encode_utf8(text), |byte: u8| is_unreserved(byte), i);
    }
}

proof fn lemma_encoded_characters(bytes: Seq<u8>, keep: spec_fn(u8) -> bool, i: int)
    requires
        forall|byte: u8| #[trigger] keep(byte) ==> byte < 0x80,
        forall|byte: u8| #[trigger] is_alphanumeric(byte) ==> keep(byte),
        0 <= i < percent_encoded(bytes, keep).len(),
    ensures
        ({
            let c = percent_encoded(bytes, keep)[i];
            c == '%' || (c as u32 <= 0xff && keep(c as u8))
        }),
    decreases bytes.len(),
{
    if bytes.len() > 0 {
        let first = percent_encoded_byte(bytes[0], keep);
        if i < first.len() {
            let c = first[i];
            assert(percent_encoded(bytes, keep)[i] == c);
            if keep(bytes[0]) {
                assert(c as u8 == bytes[0]);
            } else if i > 0 {
                assert(0x30 <= c as u8 <= 0x39 || 0x41 <= c as u8 <= 0x46);
                assert(is_alphanumeric(c as u8));
            }
        } else {
            lemma_encoded_characters(bytes.drop_first(), keep, i - first.len());
            assert(percent_encoded(bytes, keep)[i] == percent_encoded(bytes.drop_first(), keep)[i
                - first.len()]);
        }
    }
}

/// The address of a tunnel in maintenance mode ends in `&maintenance=1`, and that of any other
/// tunnel in `&maintenance=0`.
pub proof fn law_url_tells_maintenance(base: Seq<char>, tunnel: Announcement)
    ensures
        ({
            let url = announce_url(base, tunnel);
            let end = if tunnel.maintenance {
                "&maintenance=1"@
            } else {
                "&maintenance=0"@
            };
            url.len() >= 14 && url.skip(url.len() - 14) == end
        }),
{
    reveal_strlit("&maintenance=1");
    reveal_strlit("&maintenance=0");
    reveal_strlit("&maintenance=");
    reveal_strlit("1");
    reveal_strlit("0");
    let url = announce_url(base, tunnel);
    let end = if tunnel.maintenance {
        "&maintenance=1"@
    } else {
        "&maintenance=0"@
    };
    assert(url.skip(url.len() - 14) =~= end);
}

/// Two tunnels that differ in maintenance mode never have the same address.
pub proof fn law_maintenance_changes_the_url(base: Seq<char>, one: Announcement, other: Announcement)
    requires
        one.maintenance != other.maintenance,
    ensures
        announce_url(base, one) != announce_url(base, other),
{
    law_url_tells_maintenance(base, one);
    law_url_tells_maintenance(base, other);
    reveal_strlit("&maintenance=1");
    reveal_strlit("&maintenance=0");
    assert("&maintenance=1"@[13] != "&maintenance=0"@[13]);
}

/// Behind the address of the master server stand seven fields, in this order, each of them with
/// its name and its value.
pub proof fn law_url_has_seven_fields(base: Seq<char>, tunnel: Announcement)
    requires
        !tunnel.name.contains('&'),
        !tunnel.password.contains('&'),
    ensures
        ({
            let url = announce_url(base, tunnel);
            let fields = split(url.skip(base.len() as int), '&');
            &&& url.take(base.len() as int) == base
            &&& fields.len() == 7
            &&& fields[0] == "?version="@ + decimal(tunnel.version as nat)
            &&& fields[1] == "name="@ + tunnel.name
            &&& fields[2] == "port="@ + decimal(tunnel.port as nat)
            &&& fields[3] == "clients="@ + decimal(tunnel.clients)
            &&& fields[4] == "maxclients="@ + decimal(tunnel.max_clients)
            &&& fields[5] == "masterpw="@ + tunnel.password
            &&& fields[6] == if tunnel.maintenance {
                "maintenance=1"@
            } else {
                "maintenance=0"@
            }
        }),
{
    reveal_strlit("?version=");
    reveal_strlit("&name=");
    reveal_strlit("&port=");
    reveal_strlit("&clients=");
    reveal_strlit("&maxclients=");
    reveal_strlit("&masterpw=");
    reveal_strlit("&maintenance=");
    reveal_strlit("name=");
    reveal_strlit("port=");
    reveal_strlit("clients=");
    reveal_strlit("maxclients=");
    reveal_strlit("masterpw=");
    reveal_strlit("maintenance=1");
    reveal_strlit("maintenance=0");
    reveal_strlit("1");
    reveal_strlit("0");
    let url = announce_url(base, tunnel);
    let f0 = "?version="@ + decimal(tunnel.version as nat);
    let f1 = "name="@ + tunnel.name;
    let f2 = "port="@ + decimal(tunnel.port as nat);
    let f3 = "clients="@ + decimal(tunnel.clients);
    let f4 = "maxclients="@ + decimal(tunnel.max_clients);
    let f5 = "masterpw="@ + tunnel.password;
    let f6 = if tunnel.maintenance {
        "maintenance=1"@
    } else {
        "maintenance=0"@
    };
    let sep = seq!['&'];
    let query = f0 + sep + f1 + sep + f2 + sep + f3 + sep + f4 + sep + f5 + sep + f6;
    assert(url.take(base.len() as int) =~= base);
    assert(url.skip(base.len() as int) =~= query);
    lemma_decimal_has_no_ampersand("?version="@, tunnel.version as nat);
    lemma_decimal_has_no_ampersand("port="@, tunnel.port as nat);
    lemma_decimal_has_no_ampersand("clients="@, tunnel.clients);
    lemma_decimal_has_no_ampersand("maxclients="@, tunnel.max_clients);
    assert(!f1.contains('&')) by {
        assert forall|i: int| 0 <= i < f1.len() implies f1[i] != '&' by {
            if i >= 5 {
                assert(tunnel.name.contains(tunnel.name[i - 5]));
            }
        }
    }
    assert(!f5.contains('&')) by {
        assert forall|i: int| 0 <= i < f5.len() implies f5[i] != '&' by {
            if i >= 9 {
                assert(tunnel.password.contains(tunnel.password[i - 9]));
            }
        }
    }
    assert(!f6.contains('&'));
    law_text_without_separator_is_one_field(f0, '&');
    law_text_without_separator_is_one_field(f1, '&');
    law_text_without_separator_is_one_field(f2, '&');
    law_text_without_separator_is_one_field(f3, '&');
    law_text_without_separator_is_one_field(f4, '&');
    law_text_without_separator_is_one_field(f5, '&');
    law_text_without_separator_is_one_field(f6, '&');
    let t1 = f0 + sep + f1;
    let t2 = t1 + sep + f2;
    let t3 = t2 + sep + f3;
    let t4 = t3 + sep + f4;
    let t5 = t4 + sep + f5;
    law_fields_are_concatenated(f0, '&', f1);
    law_fields_are_concatenated(t1, '&', f2);
    law_fields_are_concatenated(t2, '&', f3);
    law_fields_are_concatenated(t3, '&', f4);
    law_fields_are_concatenated(t4, '&', f5);
    law_fields_are_concatenated(t5, '&', f6);
    assert(split(query, '&') =~= seq![f0, f1, f2, f3, f4, f5, f6]);
}

proof fn lemma_decimal_has_no_ampersand(label: Seq<char>, n: nat)
    requires
        forall|i: int| 0 <= i < label.len() ==> #[trigger] label[i] != '&',
    ensures
        !(label + decimal(n)).contains('&'),
{
    law_decimal_notation(n);
    let text = label + decimal(n);
    assert forall|i: int| 0 <= i < text.len() implies text[i] != '&' by {
        if i < label.len() {
            assert(label[i] != '&');
        } else {
            assert('0' <= decimal(n)[i - label.len()] <= '9');
        }
    }
}

/// Of a server name at most 100 bytes are announced, whole characters only, and no more is left
/// out than has to be: what is announced is the beginning of the name, and it is cut only where
/// the next character would not fit.
pub proof fn law_announced_name_fits(name: Seq<char>, part: Seq<char>)
    requires
        is_announced_name(part, name),
    ensures
        part.len() <= name.len(),
        part == name.take(part.len() as int),
        encode_utf8(part).len() <= 100,
        encode_utf8(name).len() <= 100 ==> part == name,
        part.len() < name.len() ==> encode_utf8(part).len() > 96,
{
    let n = choose|n: int|
        0 <= n <= name.len() && part == #[trigger] name.take(n) && encode_utf8(part).len()
            <= MAX_NAME_LENGTH && (n < name.len() ==> encode_utf8(name.take(n + 1)).len()
            > MAX_NAME_LENGTH);
    if n < name.len() {
        lemma_encode_push(part, name[n]);
        assert(name.take(n + 1) =~= part.push(name[n]));
        lemma_encoding_grows(name, n + 1, name.len() as int);
        assert(name.take(name.len() as int) =~= name);
        assert(encode_scalar(name[n] as u32).len() <= 4);
    } else {
        assert(name.take(name.len() as int) =~= name);
    }
}

/// A tunnel is announced unless that is turned off or the address would have more than 2000 bytes;
/// the address then tells the version, the port and the clients that were given, and ends in the
/// maintenance mode that was given.
pub proof fn law_heartbeats_announce_the_tunnel(
    url: Option<String>,
    disabled: bool,
    base: Seq<char>,
    name: Seq<char>,
    version: u64,
    port: u16,
    clients: nat,
    max_clients: nat,
    password: Seq<char>,
    maintenance: bool,
)
    requires
        is_heartbeat_url(
            url,
            disabled,
            base,
            name,
            version,
            port,
            clients,
            max_clients,
            password,
            maintenance,
        ),
    ensures
        disabled ==> url is None,
        !disabled ==> exists|part: Seq<char>| #[trigger]
            is_announced_name(part, name) && ({
                let full = base + "?version="@ + decimal(version as nat) + "&name="@
                    + encoded_strictly(part) + "&port="@ + decimal(port as nat) + "&clients="@
                    + decimal(clients) + "&maxclients="@ + decimal(max_clients) + "&masterpw="@
                    + encoded_strictly(password) + "&maintenance="@ + (if maintenance {
                    "1"@
                } else {
                    "0"@
                });
                &&& url is Some == (encode_utf8(full).len() <= 2000)
                &&& url matches Some(text) ==> text@ == full
            }),
        url matches Some(text) ==> text@.skip(text@.len() - 14) == if maintenance {
            "&maintenance=1"@
        } else {
            "&maintenance=0"@
        },
{
    if !disabled {
        let part = choose|part: Seq<char>| #[trigger]
            is_announced_name(part, name) && ({
                let full = announce_url(
                    base,
                    announcement(
                        version,
                        part,
                        port,
                        clients,
                        max_clients,
                        password,
                        maintenance,
                    ),
                );
                if encode_utf8(full).len() > MAX_URL_LENGTH {
                    url is None
                } else {
                    url matches Some(text) && text@ == full
                }
            });
        law_url_tells_maintenance(
            base,
            announcement(version, part, port, clients, max_clients, password, maintenance),
        );
    }
}

} // verus!
