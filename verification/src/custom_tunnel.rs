//! Custom tunnels: tunnels that a configuration file describes, named by a
//! text of the user's choice.

use crate::outside::{alphanumeric, clock_date_time, hash_str, is_alphanumeric, str_hash_writes};
use crate::scan::{
    lines_of, parse_u16, parsed_u16, same_text, split_lines, trim_chars, trimmed,
};
use crate::text::{chars_of, index_of, join, position_of, slice_of, string_of, text_of, texts};
use std::collections::hash_map::DefaultHasher;
use std::hash::Hasher;
use vstd::prelude::*;
use vstd::std_specs::hash::DefaultHasherAdditionalSpecFns;

verus! {

/// What stands before the name of a custom tunnel when its key is derived.
pub open spec fn custom_prefix() -> Seq<char> {
    "custom_"@
}

/// A 64-bit hash folded into a tunnel key: its low 32 bits, read as a signed
/// number, without the sign. The one number whose magnitude does not fit
/// gives the largest key.
pub open spec fn folded(hash: u64) -> i32 {
    let low = hash as i32;
    if low == i32::MIN {
        i32::MAX
    } else if low < 0 {
        (-low) as i32
    } else {
        low
    }
}

/// The key that a text hashes to.
pub open spec fn key_of(text: Seq<char>) -> i32 {
    folded(DefaultHasher::spec_finish(Seq::<Seq<u8>>::empty() + str_hash_writes(text)))
}

/// Folds a 64-bit hash into a tunnel key that is not negative.
pub fn fold_hash(hash: u64) -> (key: i32)
    ensures
        key == folded(hash),
        key >= 0,
{
    let low: i32 = #[verifier::truncate]
    (hash as i32);
    if low == i32::MIN {
        i32::MAX
    } else if low < 0 {
        -low
    } else {
        low
    }
}

/// The tunnel key of a text: its hash under the standard library's default
/// hasher with fixed keys, folded. Equal texts have equal keys; two texts may
/// share a key.
pub fn string_to_i32(s: &str) -> (key: i32)
    ensures
        key == key_of(s@),
        key >= 0,
{
    let mut hasher = DefaultHasher::new();
    hash_str(s, &mut hasher);
    fold_hash(hasher.finish())
}

/// The key under which the process table and the guard file the custom
/// tunnel of this name.
pub fn custom_tunnel_key(tunnel_id: &str) -> (key: i32)
    ensures
        key == key_of(custom_prefix() + tunnel_id@),
        key >= 0,
{
    let tagged = join("custom_", tunnel_id);
    string_to_i32(tagged.as_str())
}

/// The name of the configuration file of a custom tunnel.
pub fn config_file_name(tunnel_id: &str) -> (name: String)
    ensures
        name@ == tunnel_id@ + ".ini"@,
{
    join(tunnel_id, ".ini")
}

/// What a configuration file says of its server and of its one tunnel.
pub struct IniParsedInfo {
    pub server_addr: Option<String>,
    pub server_port: Option<u16>,
    pub tunnel_names: Vec<String>,
    pub tunnel_type: Option<String>,
    pub custom_domains: Option<String>,
    pub subdomain: Option<String>,
    pub local_ip: Option<String>,
    pub local_port: Option<u16>,
    pub remote_port: Option<u16>,
}

/// The settings of a configuration file, as texts and numbers.
pub struct IniFields {
    pub server_addr: Option<Seq<char>>,
    pub server_port: Option<u16>,
    pub tunnel_names: Seq<Seq<char>>,
    pub tunnel_type: Option<Seq<char>>,
    pub custom_domains: Option<Seq<char>>,
    pub subdomain: Option<Seq<char>>,
    pub local_ip: Option<Seq<char>>,
    pub local_port: Option<u16>,
    pub remote_port: Option<u16>,
}

impl View for IniParsedInfo {
    type V = IniFields;

    open spec fn view(&self) -> IniFields {
        IniFields {
            server_addr: text_of(self.server_addr),
            server_port: self.server_port,
            tunnel_names: texts(self.tunnel_names@),
            tunnel_type: text_of(self.tunnel_type),
            custom_domains: text_of(self.custom_domains),
            subdomain: text_of(self.subdomain),
            local_ip: text_of(self.local_ip),
            local_port: self.local_port,
            remote_port: self.remote_port,
        }
    }
}

/// How far the reading of a configuration file has come: the section that
/// the next setting belongs to, what was read, and whether a second tunnel
/// section was met.
pub struct IniScan {
    pub section: Seq<char>,
    pub fields: IniFields,
    pub overfull: bool,
}

/// The reading before the first line: no section, nothing read.
pub open spec fn scan_start() -> IniScan {
    IniScan {
        section: Seq::empty(),
        fields: IniFields {
            server_addr: None,
            server_port: None,
            tunnel_names: Seq::empty(),
            tunnel_type: None,
            custom_domains: None,
            subdomain: None,
            local_ip: None,
            local_port: None,
            remote_port: None,
        },
        overfull: false,
    }
}

/// A line that says nothing: empty, or a comment.
pub open spec fn is_blank_or_comment(line: Seq<char>) -> bool {
    line.len() == 0 || line[0] == '#' || line[0] == ';'
}

/// A line that opens a section: a name in square brackets.
pub open spec fn is_section_header(line: Seq<char>) -> bool {
    line.len() >= 2 && line[0] == '[' && line.last() == ']'
}

/// The fields after a setting `key = value` was read, in the section
/// `common` or in another one. Keys that are not known change nothing. A
/// port that is no 16-bit number is taken as missing.
pub open spec fn with_setting(
    fields: IniFields,
    in_common: bool,
    key: Seq<char>,
    value: Seq<char>,
) -> IniFields {
    if in_common {
        if key == "server_addr"@ {
            IniFields { server_addr: Some(value), ..fields }
        } else if key == "server_port"@ {
            IniFields { server_port: parsed_u16(value), ..fields }
        } else {
            fields
        }
    } else {
        if key == "type"@ {
            IniFields { tunnel_type: Some(value), ..fields }
        } else if key == "custom_domains"@ {
            IniFields { custom_domains: Some(value), ..fields }
        } else if key == "subdomain"@ {
            IniFields { subdomain: Some(value), ..fields }
        } else if key == "local_ip"@ {
            IniFields { local_ip: Some(value), ..fields }
        } else if key == "local_port"@ {
            IniFields { local_port: parsed_u16(value), ..fields }
        } else if key == "remote_port"@ {
            IniFields { remote_port: parsed_u16(value), ..fields }
        } else {
            fields
        }
    }
}

/// The reading after one more line.
///
/// The line is trimmed. Blank lines and comments are passed over. A section
/// header makes its name the current section; a name that is neither empty
/// nor `common` is a tunnel's, and the second such name makes the reading
/// overfull. Any other line with a `=` is a setting: the key is what stands
/// before the first `=`, the value what stands behind it, both trimmed.
pub open spec fn scan_line(state: IniScan, raw_line: Seq<char>) -> IniScan {
    let line = trimmed(raw_line);
    if state.overfull || is_blank_or_comment(line) {
        state
    } else if is_section_header(line) {
        let name = line.subrange(1, line.len() - 1);
        if name != "common"@ && name.len() > 0 {
            if state.fields.tunnel_names.len() >= 1 {
                IniScan { section: name, overfull: true, ..state }
            } else {
                IniScan {
                    section: name,
                    fields: IniFields {
                        tunnel_names: state.fields.tunnel_names.push(name),
                        ..state.fields
                    },
                    ..state
                }
            }
        } else {
            IniScan { section: name, ..state }
        }
    } else {
        match index_of(line, '=') {
            Some(at) => IniScan {
                fields: with_setting(
                    state.fields,
                    state.section == "common"@,
                    trimmed(line.subrange(0, at)),
                    trimmed(line.subrange(at + 1, line.len() as int)),
                ),
                ..state
            },
            None => state,
        }
    }
}

/// The reading after the first `n` of the lines.
pub open spec fn scan_upto(lines: Seq<Seq<char>>, n: int) -> IniScan
    decreases n,
{
    if n <= 0 {
        scan_start()
    } else {
        scan_line(scan_upto(lines, n - 1), lines[n - 1])
    }
}

/// What a configuration file says, or why it is refused: it must hold one
/// tunnel section, and no second one.
pub open spec fn parsed_ini(content: Seq<char>) -> Result<IniFields, Seq<char>> {
    let lines = lines_of(content);
    let end = scan_upto(lines, lines.len() as int);
    if end.overfull {
        Err("配置文件只能包含一个隧道段"@)
    } else if end.fields.tunnel_names.len() == 0 {
        Err("配置文件必须包含至少一个隧道段"@)
    } else {
        Ok(end.fields)
    }
}

/// An overfull reading stays overfull.
proof fn lemma_overfull_stays(lines: Seq<Seq<char>>, n: int, m: int)
    requires
        0 <= n <= m,
        scan_upto(lines, n).overfull,
    ensures
        scan_upto(lines, m).overfull,
    decreases m - n,
{
    if n < m {
        lemma_overfull_stays(lines, n, m - 1);
    }
}

/// Takes a setting into the fields.
fn apply_setting(info: &mut IniParsedInfo, in_common: bool, key: &Vec<char>, value: &Vec<char>)
    ensures
        final(info)@ == with_setting(old(info)@, in_common, key@, value@),
{
    if in_common {
        if same_text(key, "server_addr") {
            info.server_addr = Some(string_of(value));
        } else if same_text(key, "server_port") {
            info.server_port = parse_u16(value);
        }
    } else {
        if same_text(key, "type") {
            info.tunnel_type = Some(string_of(value));
        } else if same_text(key, "custom_domains") {
            info.custom_domains = Some(string_of(value));
        } else if same_text(key, "subdomain") {
            info.subdomain = Some(string_of(value));
        } else if same_text(key, "local_ip") {
            info.local_ip = Some(string_of(value));
        } else if same_text(key, "local_port") {
            info.local_port = parse_u16(value);
        } else if same_text(key, "remote_port") {
            info.remote_port = parse_u16(value);
        }
    }
}

/// Reads a configuration file: the server's address and port from the
/// section `common`, and the name and the settings of the one tunnel.
pub fn parse_ini_config(content: &str) -> (result: Result<IniParsedInfo, String>)
    ensures
        match result {
            Ok(info) => parsed_ini(content@) == Ok::<IniFields, Seq<char>>(info@),
            Err(reason) => parsed_ini(content@) == Err::<IniFields, Seq<char>>(reason@),
        },
{
    let text = chars_of(content);
    let lines = split_lines(&text);
    let ghost all = lines_of(content@);
    let mut info = IniParsedInfo {
        server_addr: None,
        server_port: None,
        tunnel_names: Vec::new(),
        tunnel_type: None,
        custom_domains: None,
        subdomain: None,
        local_ip: None,
        local_port: None,
        remote_port: None,
    };
    let mut section: Vec<char> = Vec::new();
    assert(info@ == scan_start().fields) by {
        assert(texts(info.tunnel_names@) =~= Seq::<Seq<char>>::empty());
    }
    let mut i: usize = 0;
    while i < lines.len()
        invariant
            i <= lines.len(),
            all == lines_of(content@),
            lines@.len() == all.len(),
            forall|k: int| 0 <= k < lines@.len() ==> (#[trigger] lines@[k])@ == all[k],
            !scan_upto(all, i as int).overfull,
            scan_upto(all, i as int).section == section@,
            scan_upto(all, i as int).fields == info@,
        decreases lines.len() - i,
    {
        let ghost before = scan_upto(all, i as int);
        assert(lines@[i as int]@ == all[i as int]);
        let line = trim_chars(&lines[i]);
        if line.len() == 0 || line[0] == '#' || line[0] == ';' {
        } else if line.len() >= 2 && line[0] == '[' && line[line.len() - 1] == ']' {
            let name = slice_of(&line, 1, line.len() - 1);
            if !same_text(&name, "common") && name.len() > 0 {
                if info.tunnel_names.len() >= 1 {
                    proof {
                        assert(texts(info.tunnel_names@).len() >= 1);
                        assert(scan_upto(all, i + 1).overfull);
                        lemma_overfull_stays(all, i + 1, all.len() as int);
                    }
                    return Err("配置文件只能包含一个隧道段".to_owned());
                }
                let ghost names = info.tunnel_names@;
                info.tunnel_names.push(string_of(&name));
                assert(texts(info.tunnel_names@) =~= texts(names).push(name@));
            }
            section = name;
        } else {
            match position_of(&line, '=') {
                Some(at) => {
                    let key = trim_chars(&slice_of(&line, 0, at));
                    let value = trim_chars(&slice_of(&line, at + 1, line.len()));
                    let in_common = same_text(&section, "common");
                    apply_setting(&mut info, in_common, &key, &value);
                },
                None => {},
            }
        }
        assert(scan_upto(all, i + 1) == scan_line(before, all[i as int]));
        i += 1;
    }
    if info.tunnel_names.len() == 0 {
        assert(texts(info.tunnel_names@).len() == 0);
        return Err("配置文件必须包含至少一个隧道段".to_owned());
    }
    assert(texts(info.tunnel_names@).len() > 0);
    Ok(info)
}

/// A custom tunnel as the list of custom tunnels keeps it.
#[derive(Clone, Debug)]
pub struct CustomTunnel {
    pub id: String,
    pub name: String,
    pub config_file: String,
    pub server_addr: Option<String>,
    pub server_port: Option<u16>,
    pub tunnels: Vec<String>,
    pub tunnel_type: Option<String>,
    pub custom_domains: Option<String>,
    pub subdomain: Option<String>,
    pub local_ip: Option<String>,
    pub local_port: Option<u16>,
    pub remote_port: Option<u16>,
    pub created_at: String,
}

/// A character that may stand in the name of a custom tunnel.
pub open spec fn safe_name_char(c: char) -> bool {
    alphanumeric(c) || c == '_' || c == '-'
}

/// A name that may be used as a file name: letters, numbers, `_` and `-`.
pub open spec fn safe_name(name: Seq<char>) -> bool {
    forall|i: int| 0 <= i < name.len() ==> safe_name_char(#[trigger] name[i])
}

/// Whether a tunnel's name may be used as a file name.
pub fn is_safe_tunnel_name(name: &str) -> (safe: bool)
    ensures
        safe == safe_name(name@),
{
    let chars = chars_of(name);
    let mut i: usize = 0;
    while i < chars.len()
        invariant
            i <= chars.len(),
            chars@ == name@,
            forall|k: int| 0 <= k < i ==> safe_name_char(#[trigger] chars@[k]),
        decreases chars.len() - i,
    {
        let c = chars[i];
        if !(is_alphanumeric(c) || c == '_' || c == '-') {
            return false;
        }
        i += 1;
    }
    true
}

/// The custom tunnel `tunnel` says what the settings `fields` say, under the
/// name of their first tunnel section.
pub open spec fn describes(tunnel: CustomTunnel, fields: IniFields) -> bool {
    &&& fields.tunnel_names.len() > 0
    &&& tunnel.id@ == fields.tunnel_names[0]
    &&& tunnel.name@ == fields.tunnel_names[0]
    &&& tunnel.config_file@ == fields.tunnel_names[0] + ".ini"@
    &&& text_of(tunnel.server_addr) == fields.server_addr
    &&& tunnel.server_port == fields.server_port
    &&& texts(tunnel.tunnels@) == fields.tunnel_names
    &&& text_of(tunnel.tunnel_type) == fields.tunnel_type
    &&& text_of(tunnel.custom_domains) == fields.custom_domains
    &&& text_of(tunnel.subdomain) == fields.subdomain
    &&& text_of(tunnel.local_ip) == fields.local_ip
    &&& tunnel.local_port == fields.local_port
    &&& tunnel.remote_port == fields.remote_port
}

/// Why a tunnel's name is refused.
pub open spec fn unsafe_name_text() -> Seq<char> {
    "配置文件中的隧道名称只能包含字母、数字、下划线和连字符"@
}

/// The custom tunnel that a configuration file describes, stamped with the
/// wall clock's date and time. The file is refused where it cannot be read
/// as a configuration, and where its tunnel's name is no safe file name.
pub fn describe_custom_tunnel(config_content: &str) -> (result: Result<CustomTunnel, String>)
    ensures
        match parsed_ini(config_content@) {
            Ok(fields) => if safe_name(fields.tunnel_names[0]) {
                result matches Ok(tunnel) && describes(tunnel, fields)
            } else {
                result matches Err(reason) && reason@ == unsafe_name_text()
            },
            Err(why) => result matches Err(reason) && reason@ == why,
        },
{
    let info = match parse_ini_config(config_content) {
        Ok(info) => info,
        Err(reason) => {
            return Err(reason);
        },
    };
    assert(texts(info.tunnel_names@)[0] == info.tunnel_names@[0]@);
    let tunnel_name = info.tunnel_names[0].clone();
    if !is_safe_tunnel_name(tunnel_name.as_str()) {
        return Err("配置文件中的隧道名称只能包含字母、数字、下划线和连字符".to_owned());
    }
    Ok(
        CustomTunnel {
            id: tunnel_name.clone(),
            name: tunnel_name.clone(),
            config_file: config_file_name(tunnel_name.as_str()),
            server_addr: info.server_addr,
            server_port: info.server_port,
            tunnels: info.tunnel_names,
            tunnel_type: info.tunnel_type,
            custom_domains: info.custom_domains,
            subdomain: info.subdomain,
            local_ip: info.local_ip,
            local_port: info.local_port,
            remote_port: info.remote_port,
            created_at: clock_date_time(),
        },
    )
}

/// The tunnel at index `k` is the first of the list with this id.
pub open spec fn first_with_id(list: Seq<CustomTunnel>, id: Seq<char>, k: int) -> bool {
    &&& 0 <= k < list.len()
    &&& list[k].id@ == id
    &&& forall|j: int| 0 <= j < k ==> (#[trigger] list[j]).id@ != id
}

/// None of the list has this id.
pub open spec fn none_with_id(list: Seq<CustomTunnel>, id: Seq<char>) -> bool {
    forall|j: int| 0 <= j < list.len() ==> (#[trigger] list[j]).id@ != id
}

/// Puts a tunnel into the list: in place of the first one with its id, or at
/// the end where there is none.
pub fn upsert_custom_tunnel(list: &mut Vec<CustomTunnel>, tunnel: CustomTunnel)
    ensures
        none_with_id(old(list)@, tunnel.id@) ==> final(list)@ == old(list)@.push(tunnel),
        forall|k: int|
            first_with_id(old(list)@, tunnel.id@, k) ==> final(list)@ == old(list)@.update(
                k,
                tunnel,
            ),
{
    let mut i: usize = 0;
    while i < list.len()
        invariant
            i <= list.len(),
            list@ == old(list)@,
            forall|j: int| 0 <= j < i ==> (#[trigger] list@[j]).id@ != tunnel.id@,
        decreases list.len() - i,
    {
        if list[i].id == tunnel.id {
            list.set(i, tunnel);
            return ;
        }
        i += 1;
    }
    list.push(tunnel);
}

/// The list without the tunnels of this id.
pub open spec fn without_id(list: Seq<CustomTunnel>, id: Seq<char>) -> Seq<CustomTunnel> {
    list.filter(|t: CustomTunnel| t.id@ != id)
}

/// Takes every tunnel of this id out of the list.
pub fn remove_custom_tunnel(list: &mut Vec<CustomTunnel>, tunnel_id: &str)
    ensures
        final(list)@ == without_id(old(list)@, tunnel_id@),
{
    let wanted = tunnel_id.to_owned();
    let ghost keep = |t: CustomTunnel| t.id@ != tunnel_id@;
    let ghost mut seen: int = 0;
    let mut i: usize = 0;
    assert(old(list)@.take(0).filter(keep) =~= Seq::<CustomTunnel>::empty()) by {
        reveal(Seq::filter);
    }
    while i < list.len()
        invariant
            i <= list.len(),
            0 <= seen <= old(list)@.len(),
            wanted@ == tunnel_id@,
            keep == (|t: CustomTunnel| t.id@ != tunnel_id@),
            list@.take(i as int) == old(list)@.take(seen).filter(keep),
            list@.skip(i as int) == old(list)@.skip(seen),
        decreases list.len() - i,
    {
        let ghost before = list@;
        proof {
            assert(before.skip(i as int).len() == old(list)@.skip(seen).len());
            assert(before.len() - i == old(list)@.len() - seen);
            assert(before[i as int] == before.skip(i as int)[0]);
            assert(old(list)@[seen] == old(list)@.skip(seen)[0]);
            assert(old(list)@.take(seen + 1).drop_last() =~= old(list)@.take(seen));
            reveal(Seq::filter);
        }
        if list[i].id == wanted {
            list.remove(i);
            proof {
                assert(list@.take(i as int) =~= before.take(i as int));
                assert(list@.skip(i as int) =~= before.skip(i as int).skip(1));
                assert(old(list)@.skip(seen + 1) =~= old(list)@.skip(seen).skip(1));
                seen = seen + 1;
            }
        } else {
            proof {
                assert(list@.take(i + 1) =~= before.take(i as int).push(before[i as int]));
                assert(list@.skip(i + 1) =~= before.skip(i as int).skip(1));
                assert(old(list)@.skip(seen + 1) =~= old(list)@.skip(seen).skip(1));
                seen = seen + 1;
            }
            i += 1;
        }
    }
    proof {
        assert(list@.skip(i as int).len() == 0);
        assert(seen == old(list)@.len());
        assert(list@.take(i as int) =~= list@);
        assert(old(list)@.take(seen) =~= old(list)@);
    }
}

/// A text that a newer reading may replace.
pub open spec fn newer_text(newer: Option<Seq<char>>, older: Option<String>) -> Option<Seq<char>> {
    if newer is Some {
        newer
    } else {
        text_of(older)
    }
}

/// A number that a newer reading may replace.
pub open spec fn newer_number(newer: Option<u16>, older: Option<u16>) -> Option<u16> {
    if newer is Some {
        newer
    } else {
        older
    }
}

/// `after` is `before` brought up to date with what its configuration file
/// says now: each setting that the file holds replaces the kept one.
pub open spec fn refreshed(before: CustomTunnel, after: CustomTunnel, fields: IniFields) -> bool {
    &&& after.id == before.id
    &&& after.name == before.name
    &&& after.config_file == before.config_file
    &&& after.created_at == before.created_at
    &&& text_of(after.server_addr) == newer_text(fields.server_addr, before.server_addr)
    &&& after.server_port == newer_number(fields.server_port, before.server_port)
    &&& texts(after.tunnels@) == if fields.tunnel_names.len() == 0 {
        texts(before.tunnels@)
    } else {
        fields.tunnel_names
    }
    &&& text_of(after.tunnel_type) == newer_text(fields.tunnel_type, before.tunnel_type)
    &&& text_of(after.custom_domains) == newer_text(fields.custom_domains, before.custom_domains)
    &&& text_of(after.subdomain) == newer_text(fields.subdomain, before.subdomain)
    &&& text_of(after.local_ip) == newer_text(fields.local_ip, before.local_ip)
    &&& after.local_port == newer_number(fields.local_port, before.local_port)
    &&& after.remote_port == newer_number(fields.remote_port, before.remote_port)
}

/// The newer text where there is one, else the older.
fn newer_string(newer: Option<String>, older: Option<String>) -> (r: Option<String>)
    ensures
        text_of(r) == newer_text(text_of(newer), older),
{
    match newer {
        Some(text) => Some(text),
        None => older,
    }
}

/// The newer number where there is one, else the older.
fn newer_port(newer: Option<u16>, older: Option<u16>) -> (r: Option<u16>)
    ensures
        r == newer_number(newer, older),
{
    match newer {
        Some(port) => Some(port),
        None => older,
    }
}

/// Brings a kept tunnel up to date with the present content of its
/// configuration file. A content that cannot be read as a configuration
/// changes nothing.
pub fn refresh_custom_tunnel(tunnel: CustomTunnel, config_content: &str) -> (after: CustomTunnel)
    ensures
        match parsed_ini(config_content@) {
            Ok(fields) => refreshed(tunnel, after, fields),
            Err(_) => after == tunnel,
        },
{
    match parse_ini_config(config_content) {
        Ok(parsed) => {
            let tunnels = if parsed.tunnel_names.len() == 0 {
                tunnel.tunnels
            } else {
                parsed.tunnel_names
            };
            CustomTunnel {
                id: tunnel.id,
                name: tunnel.name,
                config_file: tunnel.config_file,
                server_addr: newer_string(parsed.server_addr, tunnel.server_addr),
                server_port: newer_port(parsed.server_port, tunnel.server_port),
                tunnels,
                tunnel_type: newer_string(parsed.tunnel_type, tunnel.tunnel_type),
                custom_domains: newer_string(parsed.custom_domains, tunnel.custom_domains),
                subdomain: newer_string(parsed.subdomain, tunnel.subdomain),
                local_ip: newer_string(parsed.local_ip, tunnel.local_ip),
                local_port: newer_port(parsed.local_port, tunnel.local_port),
                remote_port: newer_port(parsed.remote_port, tunnel.remote_port),
                created_at: tunnel.created_at,
            }
        },
        Err(_) => tunnel,
    }
}

} // verus!
