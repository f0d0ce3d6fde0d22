//! The command line, and the banner that shows the settings.
use vstd::prelude::*;
use vstd::string::*;

use crate::connect::{MAX_RECONNECT_ATTEMPTS, SSH_CONNECT_TIMEOUT_S};
use crate::number::{
    decimal, law_decimal_reads_back, parse_unsigned, read_unsigned, to_decimal,
};
use crate::pump::{SSH_READ_BUFFER, SSH_READ_TIMEOUT_S};
use crate::route::{PEEK_TIMEOUT_MS, TLS_READ_TIMEOUT_MS};
use crate::session::CHANNEL_CAPACITY;
use crate::text::{chars_of, same_text};
use crate::upload::POST_READ_TIMEOUT_S;

verus! {

// ---------------------------------------------------------------------------
// Arguments
// ---------------------------------------------------------------------------
/// The position of the first argument that is `a` or `b`, or the number of
/// arguments if there is none.
pub open spec fn flag_position(args: Seq<String>, a: Seq<char>, b: Seq<char>) -> nat
    decreases args.len(),
{
    if args.len() == 0 || args[0]@ == a || args[0]@ == b {
        0
    } else {
        1 + flag_position(args.drop_first(), a, b)
    }
}

/// The argument behind the first one that is `a` or `b`.
pub open spec fn flag_value(args: Seq<String>, a: Seq<char>, b: Seq<char>) -> Option<Seq<char>> {
    let i = flag_position(args, a, b) as int;
    if i + 1 < args.len() {
        Some(args[i + 1]@)
    } else {
        None
    }
}

/// The port that stands behind the first argument that is `a` or `b`; `default`
/// where there is none that reads as a port.
pub open spec fn port_value(args: Seq<String>, a: Seq<char>, b: Seq<char>, default: nat) -> nat {
    match flag_value(args, a, b) {
        Some(text) => match parse_unsigned(text, u16::MAX as nat) {
            Some(n) => n,
            None => default,
        },
        None => default,
    }
}

/// The text that stands behind the first argument that is `a` or `b`; `default`
/// where there is none.
pub open spec fn text_value(
    args: Seq<String>,
    a: Seq<char>,
    b: Seq<char>,
    default: Seq<char>,
) -> Seq<char> {
    match flag_value(args, a, b) {
        Some(text) => text,
        None => default,
    }
}

/// Some argument is `a`.
pub open spec fn has_flag(args: Seq<String>, a: Seq<char>) -> bool {
    exists|k: int| 0 <= k < args.len() && (#[trigger] args[k])@ == a
}

proof fn lemma_flag_position_is(args: Seq<String>, a: Seq<char>, b: Seq<char>, n: int)
    requires
        0 <= n <= args.len(),
        forall|k: int| 0 <= k < n ==> (#[trigger] args[k])@ != a && args[k]@ != b,
        n < args.len() ==> args[n]@ == a || args[n]@ == b,
    ensures
        flag_position(args, a, b) == n,
    decreases n,
{
    if n > 0 {
        let t = args.drop_first();
        assert(args[0]@ != a && args[0]@ != b);
        assert forall|k: int| 0 <= k < n - 1 implies (#[trigger] t[k])@ != a && t[k]@ != b by {
            assert(t[k] == args[k + 1]);
        }
        lemma_flag_position_is(t, a, b, n - 1);
    }
}

/// Finds the argument behind the first one that is `a` or `b`.
fn find_value<'a>(args: &'a Vec<String>, a: &str, b: &str) -> (r: Option<&'a str>)
    ensures
        match r {
            Some(text) => flag_value(args@, a@, b@) == Some(text@),
            None => flag_value(args@, a@, b@) is None,
        },
{
    let mut i: usize = 0;
    while i < args.len() && !same_text(args[i].as_str(), a) && !same_text(args[i].as_str(), b)
        invariant
            i <= args.len(),
            forall|k: int| 0 <= k < i ==> (#[trigger] args@[k])@ != a@ && args@[k]@ != b@,
        decreases args.len() - i,
    {
        i = i + 1;
    }
    proof {
        lemma_flag_position_is(args@, a@, b@, i as int);
    }
    if i < args.len() && i + 1 < args.len() {
        Some(args[i + 1].as_str())
    } else {
        None
    }
}

/// Reads the port behind the first argument that is `a` or `b`.
fn read_port(args: &Vec<String>, a: &str, b: &str, default: u16) -> (r: u16)
    ensures
        r == port_value(args@, a@, b@, default as nat),
{
    match find_value(args, a, b) {
        Some(text) => {
            let v: Vec<char> = chars_of(text);
            assert(v@.subrange(0, v.len() as int) =~= text@);
            match read_unsigned(&v, 0, v.len(), u16::MAX as u64) {
                Some(n) => n as u16,
                None => default,
            }
        },
        None => default,
    }
}

/// Reads the text behind the first argument that is `a` or `b`.
fn read_text(args: &Vec<String>, a: &str, b: &str, default: &str) -> (r: String)
    ensures
        r@ == text_value(args@, a@, b@, default@),
{
    match find_value(args, a, b) {
        Some(text) => text.to_owned(),
        None => default.to_owned(),
    }
}

/// The port to listen on.
pub fn get_port(args: &Vec<String>) -> (r: u16)
    ensures
        r == port_value(args@, "--port"@, "-p"@, 8000),
{
    read_port(args, "--port", "-p", 8000)
}

/// The port for QUIC.
pub fn get_quic_port(args: &Vec<String>) -> (r: u16)
    ensures
        r == port_value(args@, "--quic-port"@, "--quic-port"@, 8001),
{
    read_port(args, "--quic-port", "--quic-port", 8001)
}

/// The port of the SSH server.
pub fn get_ssh_port(args: &Vec<String>) -> (r: u16)
    ensures
        r == port_value(args@, "--ssh-port"@, "--ssh-port"@, 22),
{
    read_port(args, "--ssh-port", "--ssh-port", 22)
}

/// The status text that the answers carry.
pub fn get_status(args: &Vec<String>) -> (r: String)
    ensures
        r@ == text_value(args@, "--status"@, "-s"@, "@Mpro"@),
{
    read_text(args, "--status", "-s", "@Mpro")
}

/// Whether an argument is given.
pub fn has_arg(args: &Vec<String>, arg: &str) -> (r: bool)
    ensures
        r == has_flag(args@, arg@),
{
    let mut i: usize = 0;
    while i < args.len()
        invariant
            i <= args.len(),
            forall|k: int| 0 <= k < i ==> (#[trigger] args@[k])@ != arg@,
        decreases args.len() - i,
    {
        if same_text(args[i].as_str(), arg) {
            assert(args@[i as int]@ == arg@);
            return true;
        }
        i = i + 1;
    }
    false
}

/// The argument behind the first one that is `arg`.
pub fn get_arg(args: &Vec<String>, arg: &str) -> (r: Option<String>)
    ensures
        match r {
            Some(text) => flag_value(args@, arg@, arg@) == Some(text@),
            None => flag_value(args@, arg@, arg@) is None,
        },
{
    match find_value(args, arg, arg) {
        Some(text) => Some(text.to_owned()),
        None => None,
    }
}

/// The settings of the server.
pub struct Options {
    pub port: u16,
    pub status: String,
    pub ssh_port: u16,
    pub use_udp: bool,
    pub use_quic: bool,
    pub quic_port: u16,
    pub tun_interface: String,
    pub subnet: String,
}

/// Reads the settings from the command line.
pub fn read_options(args: &Vec<String>) -> (r: Options)
    ensures
        r.port == port_value(args@, "--port"@, "-p"@, 8000),
        r.status@ == text_value(args@, "--status"@, "-s"@, "@Mpro"@),
        r.ssh_port == port_value(args@, "--ssh-port"@, "--ssh-port"@, 22),
        r.use_udp == (has_flag(args@, "-u"@) || has_flag(args@, "--udp"@)),
        r.use_quic == (has_flag(args@, "-q"@) || has_flag(args@, "--quic"@)),
        r.quic_port == port_value(args@, "--quic-port"@, "--quic-port"@, 8001),
        r.tun_interface@ == text_value(args@, "--tun"@, "--tun"@, "tun0"@),
        r.subnet@ == text_value(args@, "--subnet"@, "--subnet"@, "10.10.0.0/16"@),
{
    Options {
        port: get_port(args),
        status: get_status(args),
        ssh_port: get_ssh_port(args),
        use_udp: has_arg(args, "-u") || has_arg(args, "--udp"),
        use_quic: has_arg(args, "-q") || has_arg(args, "--quic"),
        quic_port: get_quic_port(args),
        tun_interface: match get_arg(args, "--tun") {
            Some(text) => text,
            None => "tun0".to_owned(),
        },
        subnet: match get_arg(args, "--subnet") {
            Some(text) => text,
            None => "10.10.0.0/16".to_owned(),
        },
    }
}

// ---------------------------------------------------------------------------
// Banner
// ---------------------------------------------------------------------------
/// `n` spaces.
pub open spec fn spaces(n: nat) -> Seq<char> {
    Seq::new(n, |i: int| ' ')
}

/// `s`, filled up with spaces to `width` characters.
pub open spec fn padded(s: Seq<char>, width: nat) -> Seq<char> {
    if s.len() < width {
        s + spaces((width - s.len()) as nat)
    } else {
        s
    }
}

/// The protocols that are served, with their ports.
pub open spec fn protocol_list(o: Options) -> Seq<char> {
    let tcp = "tcp:"@ + decimal(o.port as nat);
    let udp = if o.use_udp {
        tcp + ",udp:"@ + decimal(o.port as nat)
    } else {
        tcp
    };
    if o.use_quic {
        udp + ",quic:"@ + decimal(o.quic_port as nat)
    } else {
        udp
    }
}

/// The lines of the banner.
pub open spec fn banner_text(o: Options) -> Seq<Seq<char>> {
    let rule = "+--------------------------------------------------------+"@;
    seq![
        rule,
        "|  Proxy + Protocolo integrados (Mpro XHTTP v3.7.0)    |"@,
        "|  Stability Enhanced - Redes Móveis                    |"@,
        rule,
        "|  CONFIGURACOES ATUAIS                                  |"@,
        rule,
        "|  Porta: "@ + padded(decimal(o.port as nat), 47) + "|"@,
        "|  Sub-rede: "@ + padded(o.subnet@, 45) + "|"@,
        "|  Interface TUN: "@ + padded(o.tun_interface@, 40) + "|"@,
        "|  Protocolos: "@ + padded(protocol_list(o), 42) + "|"@,
        "|  Peek="@ + decimal(PEEK_TIMEOUT_MS as nat) + "ms | TLS read="@ + decimal(
            TLS_READ_TIMEOUT_MS as nat,
        ) + "ms | SSH connect="@ + decimal(SSH_CONNECT_TIMEOUT_S as nat) + "s  |"@,
        "|  POST timeout="@ + decimal(POST_READ_TIMEOUT_S as nat) + "s | SSH read="@ + decimal(
            SSH_READ_TIMEOUT_S as nat,
        ) + "s            |"@,
        "|  Reconnect="@ + decimal(MAX_RECONNECT_ATTEMPTS as nat) + "x | Channel="@ + decimal(
            CHANNEL_CAPACITY as nat,
        ) + "                |"@,
        "|  Keep-Alive: timeout=30 max=100              |"@,
        "|  TCP_QUICKACK | Buffer="@ + decimal(SSH_READ_BUFFER as nat) + "                    |"@,
        rule,
    ]
}

/// Fills a text up with spaces to `width` characters.
fn pad(s: String, width: usize) -> (r: String)
    ensures
        r@ == padded(s@, width as nat),
{
    let mut n: usize = s.as_str().unicode_len();
    let mut r: String = s;
    let ghost start = n as nat;
    assert(spaces(0) =~= Seq::<char>::empty());
    assert(r@ =~= s@ + spaces(0));
    proof {
        reveal_strlit(" ");
    }
    while n < width
        invariant
            start == s@.len(),
            start <= n,
            n <= width || n == start,
            " "@ == seq![' '],
            r@ == s@ + spaces((n - start) as nat),
        decreases width - n,
    {
        assert(spaces((n - start) as nat) + " "@ =~= spaces((n + 1 - start) as nat));
        r.append(" ");
        n = n + 1;
        assert(r@ =~= s@ + spaces((n - start) as nat));
    }
    assert(s@ + spaces(0) =~= s@);
    r
}

/// `before`, a number, and `after`.
fn with_number(before: String, n: u64, after: &str) -> (r: String)
    ensures
        r@ == before@ + decimal(n as nat) + after@,
{
    let mut s: String = before;
    s.append(to_decimal(n).as_str());
    s.append(after);
    s
}

impl Options {
    /// The protocols that are served, with their ports.
    pub fn protocols(&self) -> (r: String)
        ensures
            r@ == protocol_list(*self),
    {
        let mut s: String = String::from_str("tcp:");
        s.append(to_decimal(self.port as u64).as_str());
        if self.use_udp {
            s.append(",udp:");
            s.append(to_decimal(self.port as u64).as_str());
        }
        if self.use_quic {
            s.append(",quic:");
            s.append(to_decimal(self.quic_port as u64).as_str());
        }
        s
    }

    /// `label`, a text filled up to `width` characters, and the right border.
    fn banner_row(label: &str, text: String, width: usize) -> (r: String)
        ensures
            r@ == label@ + padded(text@, width as nat) + "|"@,
    {
        let mut s: String = String::from_str(label);
        s.append(pad(text, width).as_str());
        s.append("|");
        s
    }

    /// The lines of the banner.
    pub fn banner(&self) -> (r: Vec<String>)
        ensures
            r@.map_values(|s: String| s@) == banner_text(*self),
    {
        let rule: &str = "+--------------------------------------------------------+";
        let mut v: Vec<String> = Vec::new();
        v.push(String::from_str(rule));
        v.push(String::from_str("|  Proxy + Protocolo integrados (Mpro XHTTP v3.7.0)    |"));
        v.push(String::from_str("|  Stability Enhanced - Redes Móveis                    |"));
        v.push(String::from_str(rule));
        v.push(String::from_str("|  CONFIGURACOES ATUAIS                                  |"));
        v.push(String::from_str(rule));
        v.push(Self::banner_row("|  Porta: ", to_decimal(self.port as u64), 47));
        v.push(Self::banner_row("|  Sub-rede: ", self.subnet.clone(), 45));
        v.push(Self::banner_row("|  Interface TUN: ", self.tun_interface.clone(), 40));
        v.push(Self::banner_row("|  Protocolos: ", self.protocols(), 42));
        let s: String = with_number(String::from_str("|  Peek="), PEEK_TIMEOUT_MS, "ms | TLS read=");
        let s: String = with_number(s, TLS_READ_TIMEOUT_MS, "ms | SSH connect=");
        v.push(with_number(s, SSH_CONNECT_TIMEOUT_S, "s  |"));
        let s: String = with_number(
            String::from_str("|  POST timeout="),
            POST_READ_TIMEOUT_S,
            "s | SSH read=",
        );
        v.push(with_number(s, SSH_READ_TIMEOUT_S, "s            |"));
        let s: String = with_number(
            String::from_str("|  Reconnect="),
            MAX_RECONNECT_ATTEMPTS as u64,
            "x | Channel=",
        );
        v.push(with_number(s, CHANNEL_CAPACITY as u64, "                |"));
        v.push(String::from_str("|  Keep-Alive: timeout=30 max=100              |"));
        v.push(
            with_number(
                String::from_str("|  TCP_QUICKACK | Buffer="),
                SSH_READ_BUFFER as u64,
                "                    |",
            ),
        );
        v.push(String::from_str(rule));
        assert(v@.map_values(|s: String| s@) =~= banner_text(*self));
        v
    }
}

// ---------------------------------------------------------------------------
// Laws
// ---------------------------------------------------------------------------
/// A port that is given is the port that is used; the first place where it is
/// given counts.
pub proof fn law_port_is_read(
    args: Seq<String>,
    a: Seq<char>,
    b: Seq<char>,
    default: nat,
    i: int,
    port: nat,
)
    requires
        0 <= i,
        i + 1 < args.len(),
        forall|k: int| 0 <= k < i ==> (#[trigger] args[k])@ != a && args[k]@ != b,
        args[i]@ == a || args[i]@ == b,
        args[i + 1]@ == decimal(port),
        port <= u16::MAX,
    ensures
        port_value(args, a, b, default) == port,
{
    lemma_flag_position_is(args, a, b, i);
    law_decimal_reads_back(port, u16::MAX as nat);
}

/// What is not given has its default.
pub proof fn law_defaults(
    args: Seq<String>,
    a: Seq<char>,
    b: Seq<char>,
    port: nat,
    text: Seq<char>,
)
    requires
        !has_flag(args, a),
        !has_flag(args, b),
    ensures
        port_value(args, a, b, port) == port,
        text_value(args, a, b, text) == text,
{
    assert forall|k: int| 0 <= k < args.len() implies (#[trigger] args[k])@ != a && args[k]@ != b by {
        if args[k]@ == a {
            assert(has_flag(args, a));
        }
        if args[k]@ == b {
            assert(has_flag(args, b));
        }
    }
    lemma_flag_position_is(args, a, b, args.len() as int);
}

/// The value of a flag is the argument that follows the first place where the flag
/// is given, in either form; there is none where nothing follows.
pub proof fn law_value_follows_flag(args: Seq<String>, a: Seq<char>, b: Seq<char>, i: int)
    requires
        0 <= i < args.len(),
        forall|k: int| 0 <= k < i ==> (#[trigger] args[k])@ != a && args[k]@ != b,
        args[i]@ == a || args[i]@ == b,
    ensures
        i + 1 < args.len() ==> flag_value(args, a, b) == Some(args[i + 1]@),
        i + 1 == args.len() ==> flag_value(args, a, b) is None,
{
    lemma_flag_position_is(args, a, b, i);
}

/// A flag has no value exactly where it is not given, or only as the last argument.
pub proof fn law_flag_without_value(args: Seq<String>, a: Seq<char>, b: Seq<char>)
    requires
        forall|k: int| 0 <= k < args.len() ==> (#[trigger] args[k])@ != a && args[k]@ != b,
    ensures
        flag_value(args, a, b) is None,
{
    lemma_flag_position_is(args, a, b, args.len() as int);
}

/// A port is the value of its flag where that reads as a number up to 65535, and
/// the default everywhere else; a text is the value of its flag whatever it is, and
/// the default where there is none.
pub proof fn law_setting_is_value(
    args: Seq<String>,
    a: Seq<char>,
    b: Seq<char>,
    port: nat,
    text: Seq<char>,
)
    ensures
        flag_value(args, a, b) matches Some(v) ==> {
            &&& text_value(args, a, b, text) == v
            &&& parse_unsigned(v, 65535) matches Some(n) ==> port_value(args, a, b, port) == n
            &&& parse_unsigned(v, 65535) is None ==> port_value(args, a, b, port) == port
        },
        flag_value(args, a, b) is None ==> text_value(args, a, b, text) == text && port_value(
            args,
            a,
            b,
            port,
        ) == port,
{
}

/// A flag is given where some argument is just that text, at whatever place.
pub proof fn law_flag_is_seen(args: Seq<String>, a: Seq<char>)
    ensures
        has_flag(args, a) <==> args.map_values(|s: String| s@).contains(a),
{
    let texts = args.map_values(|s: String| s@);
    if has_flag(args, a) {
        let k = choose|k: int| 0 <= k < args.len() && (#[trigger] args[k])@ == a;
        assert(texts[k] == a);
    }
    if texts.contains(a) {
        let k = choose|k: int| 0 <= k < texts.len() && texts[k] == a;
        assert(args[k]@ == a);
    }
}

/// Filling up keeps the text, adds nothing but spaces, and never makes it shorter
/// than the width.
pub proof fn law_padded(s: Seq<char>, width: nat)
    ensures
        s.is_prefix_of(padded(s, width)),
        padded(s, width).len() == (if s.len() < width {
            width
        } else {
            s.len()
        }),
        forall|k: int| s.len() <= k < padded(s, width).len() ==> #[trigger] padded(s, width)[k] == ' ',
{
    assert(s =~= padded(s, width).take(s.len() as int));
}

/// The protocols that are listed: TCP always, with its port, then UDP on the same
/// port and QUIC on its own, each exactly where it is asked for.
pub proof fn law_protocols_listed(o: Options)
    ensures
        ({
            let tcp = "tcp:"@ + decimal(o.port as nat);
            let udp = ",udp:"@ + decimal(o.port as nat);
            let quic = ",quic:"@ + decimal(o.quic_port as nat);
            &&& !o.use_udp && !o.use_quic ==> protocol_list(o) == tcp
            &&& o.use_udp && !o.use_quic ==> protocol_list(o) == tcp + udp
            &&& !o.use_udp && o.use_quic ==> protocol_list(o) == tcp + quic
            &&& o.use_udp && o.use_quic ==> protocol_list(o) == tcp + udp + quic
        }),
{
    let tcp = "tcp:"@ + decimal(o.port as nat);
    let udp = ",udp:"@ + decimal(o.port as nat);
    let quic = ",quic:"@ + decimal(o.quic_port as nat);
    assert(tcp + ",udp:"@ + decimal(o.port as nat) =~= tcp + udp);
    assert(tcp + ",quic:"@ + decimal(o.quic_port as nat) =~= tcp + quic);
    assert(tcp + udp + ",quic:"@ + decimal(o.quic_port as nat) =~= tcp + udp + quic);
}

/// The banner shows the port, the subnet, the interface and the protocols, each in
/// a row of its own; the other rows are the same for all settings.
pub proof fn law_banner_shows_settings(o: Options, other: Options)
    ensures
        banner_text(o).len() == 16,
        forall|k: int|
            0 <= k < 16 && !(6 <= k <= 9) ==> #[trigger] banner_text(o)[k] == banner_text(other)[k],
        banner_text(o)[6] == "|  Porta: "@ + padded(decimal(o.port as nat), 47) + "|"@,
        banner_text(o)[7] == "|  Sub-rede: "@ + padded(o.subnet@, 45) + "|"@,
        banner_text(o)[8] == "|  Interface TUN: "@ + padded(o.tun_interface@, 40) + "|"@,
        banner_text(o)[9] == "|  Protocolos: "@ + padded(protocol_list(o), 42) + "|"@,
{
}

} // verus!
