//! The proxy socket: its name, its path, and what may be done with the path.
use crate::path::{file_name, is_absolute, join};
use crate::text::decimal_text;
use vstd::prelude::*;
use vstd::slice::slice_to_vec;
use vstd::string::*;
use vstd::utf8::*;

verus! {

/// A proxy socket: the value of `WAYLAND_DISPLAY` that leads clients to it, and its path.
#[derive(Debug)]
pub struct ResolvedSocket {
    pub display_value: String,
    pub listen_path: Vec<u8>,
}

/// What a `ResolvedSocket` says.
#[verifier::ext_equal]
pub struct SocketView {
    pub display_value: Seq<char>,
    pub listen_path: Seq<u8>,
}

impl View for ResolvedSocket {
    type V = SocketView;

    open spec fn view(&self) -> SocketView {
        SocketView { display_value: self.display_value@, listen_path: self.listen_path@ }
    }
}

/// The socket that a name or path stands for: an absolute path is itself, any other one is
/// taken in a directory.
pub open spec fn socket_named(directory: Seq<u8>, spec: Seq<char>) -> SocketView {
    SocketView {
        display_value: spec,
        listen_path: crate::path::joined(directory, encode_utf8(spec)),
    }
}

/// The socket that a name or path stands for.
pub fn resolve_socket_spec(proxy_runtime_dir: &[u8], spec: &str) -> (socket: ResolvedSocket)
    ensures
        socket@ == socket_named(proxy_runtime_dir@, spec@),
        socket.display_value@ == spec@,
        socket.listen_path@ == if spec@.len() > 0 && spec@[0] == '/' {
            encode_utf8(spec@)
        } else if proxy_runtime_dir@.len() == 0 || proxy_runtime_dir@.last() == 0x2f {
            proxy_runtime_dir@ + encode_utf8(spec@)
        } else {
            proxy_runtime_dir@.push(0x2f) + encode_utf8(spec@)
        },
{
    proof {
        lemma_absolute_text(spec@);
    }
    let path = spec.as_bytes();
    if is_absolute(path) {
        ResolvedSocket { display_value: spec.to_owned(), listen_path: slice_to_vec(path) }
    } else {
        ResolvedSocket { display_value: spec.to_owned(), listen_path: join(proxy_runtime_dir, path) }
    }
}

/// The name that the default name of the proxy socket is made from: the final component of the
/// host's display, which may be a path, or `wayland-0` where it has none.
pub open spec fn display_stem(host_display: Seq<char>) -> Seq<char> {
    match crate::path::final_component(encode_utf8(host_display)) {
        Some(name) => decode_utf8(name),
        None => "wayland-0"@,
    }
}

/// The default name of the proxy socket.
pub open spec fn default_name(host_display: Seq<char>) -> Seq<char> {
    display_stem(host_display) + "-proxy"@
}

/// The default name of the proxy socket.
pub fn default_proxy_socket_name(host_display: &str) -> (name: String)
    ensures
        name@ == default_name(host_display@),
{
    let stem = match file_name(host_display) {
        Some(name) => {
            proof {
                encode_utf8_decode_utf8(name@);
            }
            name
        },
        None => "wayland-0",
    };
    let mut name = stem.to_owned();
    name.append("-proxy");
    name
}

/// The socket for a given specification, or the default one where there is none.
pub open spec fn fixed_socket(
    directory: Seq<u8>,
    host_display: Seq<char>,
    proxy_socket: Option<Seq<char>>,
) -> SocketView {
    match proxy_socket {
        Some(spec) => socket_named(directory, spec),
        None => socket_named(directory, default_name(host_display)),
    }
}

/// The socket for a given specification, or the default one where there is none.
pub fn resolve_fixed_socket(
    proxy_runtime_dir: &[u8],
    host_display: &str,
    proxy_socket: &Option<String>,
) -> (socket: ResolvedSocket)
    ensures
        socket@ == fixed_socket(
            proxy_runtime_dir@,
            host_display@,
            crate::config::text_of(*proxy_socket),
        ),
        proxy_socket matches Some(spec) ==> {
            &&& socket.display_value@ == spec@
            &&& socket.listen_path@ == if spec@.len() > 0 && spec@[0] == '/' {
                encode_utf8(spec@)
            } else if proxy_runtime_dir@.len() == 0 || proxy_runtime_dir@.last() == 0x2f {
                proxy_runtime_dir@ + encode_utf8(spec@)
            } else {
                proxy_runtime_dir@.push(0x2f) + encode_utf8(spec@)
            }
        },
        proxy_socket is None ==> {
            &&& socket.display_value@ == default_name(host_display@)
            &&& socket.listen_path@ == if proxy_runtime_dir@.len() == 0 || proxy_runtime_dir@.last()
                == 0x2f {
                proxy_runtime_dir@ + encode_utf8(socket.display_value@)
            } else {
                proxy_runtime_dir@.push(0x2f) + encode_utf8(socket.display_value@)
            }
        },
{
    proof {
        lemma_default_name_is_relative(host_display@);
    }
    match proxy_socket {
        Some(spec) => resolve_socket_spec(proxy_runtime_dir, spec.as_str()),
        None => resolve_socket_spec(
            proxy_runtime_dir,
            default_proxy_socket_name(host_display).as_str(),
        ),
    }
}

/// The names that are tried one after the other: the base name, then the base name with a
/// number behind it.
pub open spec fn candidate_name(base_name: Seq<char>, index: nat) -> Seq<char> {
    if index == 0 {
        base_name
    } else {
        base_name + "-"@ + crate::text::decimal(index)
    }
}

/// The name to try at an index.
pub fn candidate_socket_name(base_name: &str, index: u32) -> (name: String)
    ensures
        name@ == candidate_name(base_name@, index as nat),
{
    let mut name = base_name.to_owned();
    if index > 0 {
        name.append("-");
        name.append(decimal_text(index).as_str());
    }
    name
}

/// The name that is tried first is the base name; each later one is the base name, a dash, and
/// digits that read as the number of the attempt.
pub proof fn candidate_names_are_numbered(base_name: Seq<char>, index: nat)
    ensures
        candidate_name(base_name, 0) == base_name,
        index > 0 ==> {
            let name = candidate_name(base_name, index);
            let digits = name.skip(base_name.len() as int + 1);
            &&& name.len() > base_name.len() + 1
            &&& name.take(base_name.len() as int) == base_name
            &&& name[base_name.len() as int] == '-'
            &&& crate::text::numeral(digits) == index
            &&& digits[0] != '0'
            &&& forall|i: int| 0 <= i < digits.len() ==> '0' <= #[trigger] digits[i] <= '9'
        },
{
    reveal_strlit("-");
    if index > 0 {
        let name = candidate_name(base_name, index);
        crate::text::decimal_reads_back(index);
        crate::text::decimal_has_digits_only(index);
        assert(name.take(base_name.len() as int) =~= base_name);
        assert(name.skip(base_name.len() as int + 1) =~= crate::text::decimal(index));
    }
}

/// No name is tried twice.
pub proof fn candidate_names_differ(base_name: Seq<char>, left: nat, right: nat)
    requires
        left != right,
    ensures
        candidate_name(base_name, left) != candidate_name(base_name, right),
{
    reveal_strlit("-");
    let a = candidate_name(base_name, left);
    let b = candidate_name(base_name, right);
    if a == b && left > 0 && right > 0 {
        let start = base_name.len() + 1;
        assert(a.skip(start as int) =~= crate::text::decimal(left));
        assert(b.skip(start as int) =~= crate::text::decimal(right));
        crate::text::decimal_is_injective(left, right);
    }
}

/// Text is an absolute path where it starts with a slash.
proof fn lemma_absolute_text(text: Seq<char>)
    ensures
        crate::path::absolute(encode_utf8(text)) == (text.len() > 0 && text[0] == '/'),
{
    if text.len() > 0 {
        let first = text[0] as u32;
        encode_utf8_first_scalar(text);
        assert(encode_utf8(text)[0] == encode_scalar(first)[0]);
        if has_width_1_encoding(first) {
            assert(leading_byte_width_1(first) == first) by (bit_vector)
                requires
                    has_width_1_encoding(first),
            ;
            assert(encode_utf8(text)[0] == first);
        } else {
            char_is_scalar(text[0]);
            assert(encode_scalar(first).len() > 1);
            assert(!is_leading_byte_width_1(encode_utf8(text)[0]));
        }
        char_u32_cast(text[0], first);
        char_u32_cast('/', 0x2f);
        assert(text[0] == '/' <==> first == 0x2f);
        assert(crate::path::absolute(encode_utf8(text)) <==> encode_utf8(text)[0] == 0x2f);
    } else {
        assert(encode_utf8(text) =~= Seq::<u8>::empty());
    }
}

/// No path is tried twice.
pub proof fn candidate_paths_differ(
    directory: Seq<u8>,
    base_name: Seq<char>,
    left: nat,
    right: nat,
)
    requires
        left != right,
    ensures
        socket_named(directory, candidate_name(base_name, left)).listen_path != socket_named(
            directory,
            candidate_name(base_name, right),
        ).listen_path,
{
    reveal_strlit("-");
    let a = candidate_name(base_name, left);
    let b = candidate_name(base_name, right);
    candidate_names_differ(base_name, left, right);
    lemma_absolute_text(a);
    lemma_absolute_text(b);
    encode_utf8_decode_utf8(a);
    encode_utf8_decode_utf8(b);
    let x = encode_utf8(a);
    let y = encode_utf8(b);
    assert(x != y);
    if !crate::path::absolute(x) {
        let p = crate::path::joined(directory, x);
        let q = crate::path::joined(directory, y);
        let start = p.len() - x.len();
        assert(p.skip(start) =~= x);
        assert(q.skip(start) =~= y);
    }
}

/// Text without a slash encodes to bytes without a separator.
proof fn lemma_text_without_slash(text: Seq<char>)
    requires
        !text.contains('/'),
    ensures
        !encode_utf8(text).contains(crate::path::SEPARATOR),
    decreases text.len(),
{
    if text.len() > 0 {
        let rest = text.drop_first();
        assert(!rest.contains('/')) by {
            if rest.contains('/') {
                let i = choose|i: int| 0 <= i < rest.len() && rest[i] == '/';
                assert(text[i + 1] == '/');
            }
        }
        lemma_text_without_slash(rest);
        assert(text.contains(text[0]));
        let first = text[0] as u32;
        let head = encode_scalar(first);
        char_u32_cast(text[0], first);
        char_u32_cast('/', 0x2f);
        assert(first != 0x2f);
        assert(!head.contains(crate::path::SEPARATOR)) by {
            assert(has_width_1_encoding(first) ==> leading_byte_width_1(first) == first)
                by (bit_vector);
            assert(leading_byte_width_2(first) >= 0x80 && leading_byte_width_3(first) >= 0x80
                && leading_byte_width_4(first) >= 0x80 && last_continuation_byte(first) >= 0x80
                && second_last_continuation_byte(first) >= 0x80 && third_last_continuation_byte(
                first,
            ) >= 0x80) by (bit_vector);
        }
        let all = encode_utf8(text);
        assert forall|i: int| 0 <= i < all.len() implies all[i] != crate::path::SEPARATOR by {
            if i < head.len() {
                assert(head.contains(head[i]));
            } else {
                assert(encode_utf8(rest).contains(encode_utf8(rest)[i - head.len()]));
            }
        }
    }
}

/// The default name for a display that is a plain name is that name with `-proxy` behind it.
pub proof fn default_name_of_a_plain_display(host_display: Seq<char>)
    requires
        host_display.len() > 0,
        !host_display.contains('/'),
        host_display != seq!['.'],
        host_display != seq!['.', '.'],
    ensures
        default_name(host_display) == host_display + "-proxy"@,
{
    let bytes = encode_utf8(host_display);
    lemma_text_without_slash(host_display);
    encode_utf8_decode_utf8(host_display);
    is_ascii_chars_encode_utf8(seq!['.']);
    is_ascii_chars_encode_utf8(seq!['.', '.']);
    assert(encode_utf8(seq!['.']) =~= seq![crate::path::DOT]);
    assert(encode_utf8(seq!['.', '.']) =~= seq![crate::path::DOT, crate::path::DOT]);
    encode_utf8_decode_utf8(seq!['.']);
    encode_utf8_decode_utf8(seq!['.', '.']);
    encode_utf8_first_scalar(host_display);
    crate::path::plain_name_is_its_final_component(bytes);
}

/// Every candidate for the default socket is an entry of the proxy's runtime directory, which
/// is the directory that is created for it.
pub proof fn default_sockets_lie_in_the_runtime_directory(
    directory: Seq<u8>,
    host_display: Seq<char>,
    index: nat,
)
    ensures
        ({
            let name = candidate_name(default_name(host_display), index);
            let path = socket_named(directory, name).listen_path;
            &&& crate::path::final_component(path) == Some(encode_utf8(name))
            &&& crate::path::containing_directory(path) == Some(crate::path::trimmed(directory))
        }),
{
    let stem = display_stem(host_display);
    let base = default_name(host_display);
    let name = candidate_name(base, index);
    let bytes = encode_utf8(host_display);
    reveal_strlit("wayland-0");
    reveal_strlit("-proxy");
    reveal_strlit("-");
    assert(!encode_utf8(stem).contains(crate::path::SEPARATOR)) by {
        match crate::path::final_component(bytes) {
            Some(component) => {
                crate::path::final_component_is_plain(bytes);
                crate::path::final_component_is_text(host_display);
                decode_utf8_encode_utf8(component);
            },
            None => {
                lemma_text_without_slash("wayland-0"@);
            },
        }
    }
    lemma_text_without_slash("-proxy"@);
    crate::text::encoding_of_concatenation(stem, "-proxy"@);
    if index > 0 {
        let number = crate::text::decimal(index);
        crate::text::decimal_has_digits_only(index);
        lemma_text_without_slash("-"@);
        lemma_text_without_slash(number);
        crate::text::encoding_of_concatenation(base + "-"@, number);
        crate::text::encoding_of_concatenation(base, "-"@);
    }
    is_ascii_chars_encode_utf8("-proxy"@);
    assert(encode_utf8(name).len() >= 6);
    assert(!encode_utf8(name).contains(crate::path::SEPARATOR));
    crate::path::joined_name_is_an_entry(directory, encode_utf8(name));
}

proof fn lemma_dots_encode()
    ensures
        encode_utf8(seq!['.']) == seq![0x2eu8],
        encode_utf8(seq!['.', '.']) == seq![0x2eu8, 0x2eu8],
        encode_utf8(seq!['/']) == seq![0x2fu8],
        encode_utf8(Seq::<char>::empty()) == Seq::<u8>::empty(),
{
    is_ascii_chars_encode_utf8(seq!['.']);
    is_ascii_chars_encode_utf8(seq!['.', '.']);
    is_ascii_chars_encode_utf8(seq!['/']);
    assert(encode_utf8(seq!['.']) =~= seq![0x2eu8]);
    assert(encode_utf8(seq!['.', '.']) =~= seq![0x2eu8, 0x2eu8]);
    assert(encode_utf8(seq!['/']) =~= seq![0x2fu8]);
    assert(encode_utf8(Seq::<char>::empty()) =~= Seq::<u8>::empty());
}

proof fn lemma_encoded_dots(piece: Seq<char>)
    ensures
        encode_utf8(piece).len() == 0 <==> piece.len() == 0,
        encode_utf8(piece) == seq![0x2eu8] <==> piece == seq!['.'],
        encode_utf8(piece) == seq![0x2eu8, 0x2eu8] <==> piece == seq!['.', '.'],
{
    lemma_dots_encode();
    encode_utf8_decode_utf8(piece);
    encode_utf8_decode_utf8(seq!['.']);
    encode_utf8_decode_utf8(seq!['.', '.']);
    encode_utf8_decode_utf8(Seq::<char>::empty());
    if encode_utf8(piece).len() == 0 {
        assert(encode_utf8(piece) =~= Seq::<u8>::empty());
    }
    if piece.len() == 0 {
        assert(piece =~= Seq::<char>::empty());
    }
}

/// The default name does not start with a slash.
proof fn lemma_default_name_is_relative(host_display: Seq<char>)
    ensures
        !(default_name(host_display).len() > 0 && default_name(host_display)[0] == '/'),
{
    reveal_strlit("wayland-0");
    reveal_strlit("-proxy");
    let bytes = encode_utf8(host_display);
    let stem = display_stem(host_display);
    if let Some(component) = crate::path::final_component(bytes) {
        crate::path::final_component_is_plain(bytes);
        crate::path::final_component_is_text(host_display);
        decode_utf8_encode_utf8(component);
        lemma_absolute_text(stem);
    }
}

/// The default name is the last piece of the host's display, which may be a path, with `-proxy`
/// behind it. Slashes and `.` at the end of the display count for nothing. A display that ends
/// with `..`, is `.`, or is empty has no such piece, and `wayland-0` stands for it.
pub proof fn default_name_is_made_from_the_last_piece(base: Seq<char>, piece: Seq<char>)
    requires
        !piece.contains('/'),
    ensures
        piece.len() == 0 || piece == seq!['.'] || piece == seq!['.', '.'] ==> default_name(piece)
            == "wayland-0-proxy"@,
        !(piece.len() == 0 || piece == seq!['.'] || piece == seq!['.', '.']) ==> default_name(piece)
            == piece + "-proxy"@,
        ({
            let name = default_name(base.push('/') + piece);
            if piece.len() == 0 || piece == seq!['.'] {
                name == default_name(base)
            } else if piece == seq!['.', '.'] {
                name == "wayland-0-proxy"@
            } else {
                name == piece + "-proxy"@
            }
        }),
{
    reveal_strlit("wayland-0");
    reveal_strlit("-proxy");
    reveal_strlit("wayland-0-proxy");
    assert("wayland-0"@ + "-proxy"@ =~= "wayland-0-proxy"@);
    let display = base.push('/') + piece;
    let before = encode_utf8(base);
    let last = encode_utf8(piece);
    lemma_text_without_slash(piece);
    lemma_encoded_dots(piece);
    lemma_dots_encode();
    assert(base.push('/') =~= base + seq!['/']);
    crate::text::encoding_of_concatenation(base, seq!['/']);
    crate::text::encoding_of_concatenation(base.push('/'), piece);
    assert(encode_utf8(display) =~= before.push(0x2f) + last);
    crate::path::final_component_is_the_last_piece(before, last);
    encode_utf8_decode_utf8(piece);
}

/// A socket that is given is the one that is used, whatever the host's display is: its display
/// value is the text that was given, and its path is that text where it starts with a slash, and
/// an entry below the directory where it does not.
pub proof fn given_sockets_are_used(
    directory: Seq<u8>,
    host_display: Seq<char>,
    other_display: Seq<char>,
    spec: Seq<char>,
)
    ensures
        ({
            let socket = fixed_socket(directory, host_display, Some(spec));
            let bytes = encode_utf8(spec);
            &&& socket == fixed_socket(directory, other_display, Some(spec))
            &&& socket == socket_named(directory, spec)
            &&& socket.display_value == spec
            &&& spec.len() > 0 && spec[0] == '/' ==> socket.listen_path == bytes
            &&& !(spec.len() > 0 && spec[0] == '/') ==> {
                let start = socket.listen_path.len() - bytes.len();
                &&& directory.len() <= start <= directory.len() + 1
                &&& socket.listen_path.take(directory.len() as int) == directory
                &&& socket.listen_path.skip(start) == bytes
                &&& start > directory.len() <==> directory.len() > 0 && directory.last() != 0x2f
                &&& start > directory.len() ==> socket.listen_path[directory.len() as int] == 0x2f
            }
        }),
{
    lemma_absolute_text(spec);
    crate::path::joined_paths_keep_both_parts(directory, encode_utf8(spec));
}

/// A socket that is not given is the default one for the host's display, below the directory, as
/// if its name had been given.
pub proof fn default_sockets_are_named_sockets(directory: Seq<u8>, host_display: Seq<char>)
    ensures
        fixed_socket(directory, host_display, None).display_value == default_name(host_display),
        fixed_socket(directory, host_display, None) == fixed_socket(
            directory,
            host_display,
            Some(default_name(host_display)),
        ),
{
}

/// The view of a socket says what the socket says.
pub proof fn socket_views_are_faithful(socket: ResolvedSocket)
    ensures
        socket@.display_value == socket.display_value@,
        socket@.listen_path == socket.listen_path@,
{
}

} // verus!
