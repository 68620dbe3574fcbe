use frp_launcher::autostart::{
    auto_start_key, get_auto_start_tunnels, split_auto_start_key, tunnel_auto_start,
    AutoStartEntry,
};
use frp_launcher::custom_tunnel::{
    config_file_name, describe_custom_tunnel, fold_hash, is_safe_tunnel_name, parse_ini_config,
    refresh_custom_tunnel, remove_custom_tunnel, upsert_custom_tunnel, CustomTunnel,
};

const CONFIG: &str = "\
# my tunnel
[common]
server_addr = frp.example.com
server_port = 7000
user = me

[web]
type = http
local_ip = 127.0.0.1
local_port = 8080
custom_domains = www.example.com
subdomain = www
remote_port = 6000
";

fn tunnel(id: &str) -> CustomTunnel {
    CustomTunnel {
        id: id.to_string(),
        name: id.to_string(),
        config_file: format!("{}.ini", id),
        server_addr: Some("old.example.com".to_string()),
        server_port: Some(1),
        tunnels: vec![id.to_string()],
        tunnel_type: Some("tcp".to_string()),
        custom_domains: None,
        subdomain: None,
        local_ip: Some("10.0.0.1".to_string()),
        local_port: Some(22),
        remote_port: Some(2222),
        created_at: "2024-01-01T00:00:00+00:00".to_string(),
    }
}

fn ids(list: &Vec<CustomTunnel>) -> Vec<String> {
    list.iter().map(|t| t.id.clone()).collect()
}

#[test]
fn a_configuration_is_read_field_by_field() {
    let info = parse_ini_config(CONFIG).unwrap();
    assert_eq!(info.server_addr.as_deref(), Some("frp.example.com"));
    assert_eq!(info.server_port, Some(7000));
    assert_eq!(info.tunnel_names, vec!["web"]);
    assert_eq!(info.tunnel_type.as_deref(), Some("http"));
    assert_eq!(info.local_ip.as_deref(), Some("127.0.0.1"));
    assert_eq!(info.local_port, Some(8080));
    assert_eq!(info.custom_domains.as_deref(), Some("www.example.com"));
    assert_eq!(info.subdomain.as_deref(), Some("www"));
    assert_eq!(info.remote_port, Some(6000));
}

#[test]
fn a_configuration_without_a_tunnel_is_refused() {
    assert_eq!(
        parse_ini_config("[common]\nserver_addr = x\n").err(),
        Some("配置文件必须包含至少一个隧道段".to_string())
    );
    assert_eq!(parse_ini_config("").err(), Some("配置文件必须包含至少一个隧道段".to_string()));
    assert_eq!(parse_ini_config("[]\ntype = tcp\n").err(), Some("配置文件必须包含至少一个隧道段".to_string()));
}

#[test]
fn a_configuration_with_two_tunnels_is_refused() {
    assert_eq!(
        parse_ini_config("[a]\n[b]\n").err(),
        Some("配置文件只能包含一个隧道段".to_string())
    );
    assert_eq!(
        parse_ini_config("[a]\ntype = tcp\n[common]\n[a]\n").err(),
        Some("配置文件只能包含一个隧道段".to_string())
    );
}

#[test]
fn comments_and_blank_lines_say_nothing() {
    let info = parse_ini_config("; note\n\n   \n# type = udp\n[t]\n ; type = udp\ntype = tcp\r\n").unwrap();
    assert_eq!(info.tunnel_type.as_deref(), Some("tcp"));
}

#[test]
fn keys_and_values_are_trimmed_and_split_at_the_first_equals_sign() {
    let info = parse_ini_config("[t]\n  custom_domains   =   a=b  \n").unwrap();
    assert_eq!(info.custom_domains.as_deref(), Some("a=b"));
}

#[test]
fn a_later_setting_replaces_an_earlier_one() {
    let info = parse_ini_config("[t]\ntype = tcp\ntype = udp\nlocal_port = 80\nlocal_port = x\n").unwrap();
    assert_eq!(info.tunnel_type.as_deref(), Some("udp"));
    // A port that is no number is taken as missing, also after a good one.
    assert_eq!(info.local_port, None);
}

#[test]
fn settings_belong_to_the_section_they_stand_in() {
    let info = parse_ini_config("type = early\nserver_addr = nowhere\n[common]\ntype = common\nserver_port = 70000\n[t]\nserver_addr = late\n").unwrap();
    // Before the first section a tunnel setting counts, a server setting does not.
    assert_eq!(info.tunnel_type.as_deref(), Some("early"));
    assert_eq!(info.server_addr, None);
    assert_eq!(info.server_port, None);
}

#[test]
fn the_name_of_a_section_is_taken_as_it_stands() {
    let info = parse_ini_config("[ my tunnel ]\n").unwrap();
    assert_eq!(info.tunnel_names, vec![" my tunnel "]);
    // A name that is `common` with space around it is a tunnel's name.
    let info = parse_ini_config("[ common ]\n").unwrap();
    assert_eq!(info.tunnel_names, vec![" common "]);
}

#[test]
fn a_described_tunnel_is_named_after_its_section() {
    let described = describe_custom_tunnel(CONFIG).unwrap();
    assert_eq!(described.id, "web");
    assert_eq!(described.name, "web");
    assert_eq!(described.config_file, "web.ini");
    assert_eq!(described.server_addr.as_deref(), Some("frp.example.com"));
    assert_eq!(described.server_port, Some(7000));
    assert_eq!(described.tunnels, vec!["web"]);
    assert_eq!(described.tunnel_type.as_deref(), Some("http"));
    assert_eq!(described.local_port, Some(8080));
    assert_eq!(described.remote_port, Some(6000));
    // The stamp is a date and a time with an offset.
    assert!(described.created_at.len() >= 20);
    assert_eq!(described.created_at.as_bytes()[4], b'-');
    assert_eq!(described.created_at.as_bytes()[10], b'T');
}

#[test]
fn a_tunnel_with_an_unsafe_name_is_refused() {
    assert_eq!(
        describe_custom_tunnel("[../etc]\ntype = tcp\n").err(),
        Some("配置文件中的隧道名称只能包含字母、数字、下划线和连字符".to_string())
    );
    assert_eq!(
        describe_custom_tunnel("[a]\n[b]\n").err(),
        Some("配置文件只能包含一个隧道段".to_string())
    );
}

#[test]
fn safe_names_are_letters_numbers_underscores_and_hyphens() {
    assert!(is_safe_tunnel_name("web_1-a"));
    assert!(is_safe_tunnel_name("数据库"));
    assert!(is_safe_tunnel_name(""));
    assert!(!is_safe_tunnel_name("a b"));
    assert!(!is_safe_tunnel_name("a/b"));
    assert!(!is_safe_tunnel_name("a.b"));
    assert_eq!(config_file_name("web"), "web.ini");
}

#[test]
fn a_hash_is_folded_into_a_key_that_is_not_negative() {
    assert_eq!(fold_hash(0), 0);
    assert_eq!(fold_hash(5), 5);
    assert_eq!(fold_hash(0x1_0000_0005), 5);
    assert_eq!(fold_hash(0x7fff_ffff), i32::MAX);
    assert_eq!(fold_hash(0xffff_ffff), 1);
    assert_eq!(fold_hash(0xffff_fffe), 2);
    assert_eq!(fold_hash(0x8000_0001), i32::MAX);
    assert_eq!(fold_hash(0x8000_0000), i32::MAX);
    assert_eq!(fold_hash(u64::MAX), 1);
}

#[test]
fn a_tunnel_is_put_in_place_of_the_one_with_its_id() {
    let mut list = vec![tunnel("a"), tunnel("b"), tunnel("c")];
    let mut newer = tunnel("b");
    newer.server_port = Some(9);
    upsert_custom_tunnel(&mut list, newer);
    assert_eq!(ids(&list), vec!["a", "b", "c"]);
    assert_eq!(list[1].server_port, Some(9));
    upsert_custom_tunnel(&mut list, tunnel("d"));
    assert_eq!(ids(&list), vec!["a", "b", "c", "d"]);
    let mut empty: Vec<CustomTunnel> = Vec::new();
    upsert_custom_tunnel(&mut empty, tunnel("x"));
    assert_eq!(ids(&empty), vec!["x"]);
}

#[test]
fn every_tunnel_of_an_id_is_taken_out() {
    let mut list = vec![tunnel("a"), tunnel("b"), tunnel("a"), tunnel("c"), tunnel("a")];
    remove_custom_tunnel(&mut list, "a");
    assert_eq!(ids(&list), vec!["b", "c"]);
    remove_custom_tunnel(&mut list, "zzz");
    assert_eq!(ids(&list), vec!["b", "c"]);
    remove_custom_tunnel(&mut list, "c");
    remove_custom_tunnel(&mut list, "b");
    assert!(list.is_empty());
}

#[test]
fn a_kept_tunnel_is_brought_up_to_date() {
    let after = refresh_custom_tunnel(tunnel("web"), "[common]\nserver_addr = new.example.com\n[renamed]\ntype = udp\nlocal_port = none\n");
    assert_eq!(after.id, "web");
    assert_eq!(after.config_file, "web.ini");
    assert_eq!(after.created_at, "2024-01-01T00:00:00+00:00");
    assert_eq!(after.server_addr.as_deref(), Some("new.example.com"));
    // What the file does not say stays as it was kept.
    assert_eq!(after.server_port, Some(1));
    assert_eq!(after.tunnels, vec!["renamed"]);
    assert_eq!(after.tunnel_type.as_deref(), Some("udp"));
    assert_eq!(after.local_ip.as_deref(), Some("10.0.0.1"));
    assert_eq!(after.local_port, Some(22));
    assert_eq!(after.remote_port, Some(2222));
}

#[test]
fn a_file_that_cannot_be_read_changes_nothing() {
    let after = refresh_custom_tunnel(tunnel("web"), "[common]\nserver_addr = new.example.com\n");
    assert_eq!(after.server_addr.as_deref(), Some("old.example.com"));
    assert_eq!(after.tunnels, vec!["web"]);
}

fn entry(key: &str, flag: Option<bool>) -> AutoStartEntry {
    AutoStartEntry { key: key.to_string(), flag }
}

#[test]
fn the_key_joins_kind_and_id() {
    assert_eq!(auto_start_key("api", "123"), "api_123");
    assert_eq!(auto_start_key("custom", "my_tunnel"), "custom_my_tunnel");
}

#[test]
fn a_flag_is_looked_up_under_its_key() {
    let entries = vec![
        entry("api_1", Some(true)),
        entry("api_2", Some(false)),
        entry("api_3", None),
        entry("custom_web", Some(true)),
    ];
    assert!(tunnel_auto_start(&entries, "api", "1"));
    assert!(!tunnel_auto_start(&entries, "api", "2"));
    assert!(!tunnel_auto_start(&entries, "api", "3"));
    assert!(!tunnel_auto_start(&entries, "api", "4"));
    assert!(tunnel_auto_start(&entries, "custom", "web"));
    assert!(!tunnel_auto_start(&Vec::new(), "api", "1"));
}

#[test]
fn a_key_is_split_at_its_last_underscore() {
    assert_eq!(split_auto_start_key("api_123"), Some(("api".to_string(), "123".to_string())));
    assert_eq!(split_auto_start_key("custom_my_tunnel"), Some(("custom_my".to_string(), "tunnel".to_string())));
    assert_eq!(split_auto_start_key("_"), Some(("".to_string(), "".to_string())));
    assert_eq!(split_auto_start_key("api"), None);
    assert_eq!(split_auto_start_key(""), None);
}

#[test]
fn the_tunnels_that_start_with_the_application_are_listed_in_order() {
    let entries = vec![
        entry("custom_web", Some(true)),
        entry("api_2", Some(false)),
        entry("broken", Some(true)),
        entry("api_3", None),
        entry("api_1", Some(true)),
    ];
    assert_eq!(
        get_auto_start_tunnels(&entries),
        vec![("custom".to_string(), "web".to_string()), ("api".to_string(), "1".to_string())]
    );
    assert!(get_auto_start_tunnels(&Vec::new()).is_empty());
}

type Fields = (
    Option<String>,
    Option<u16>,
    Vec<String>,
    Option<String>,
    Option<String>,
    Option<String>,
    Option<String>,
    Option<u16>,
    Option<u16>,
);

/// The reading of a configuration written with the standard library's own
/// line splitting, trimming and number parsing.
fn by_the_standard_library(content: &str) -> Result<Fields, String> {
    let mut server_addr = None;
    let mut server_port = None;
    let mut tunnel_names = Vec::new();
    let mut tunnel_type = None;
    let mut custom_domains = None;
    let mut subdomain = None;
    let mut local_ip = None;
    let mut local_port = None;
    let mut remote_port = None;
    let mut current_section = String::new();
    let mut tunnel_count = 0;
    for line in content.lines() {
        let line = line.trim();
        if line.is_empty() || line.starts_with('#') || line.starts_with(';') {
            continue;
        }
        if line.starts_with('[') && line.ends_with(']') {
            current_section = line[1..line.len() - 1].to_string();
            if current_section != "common" && !current_section.is_empty() {
                tunnel_count += 1;
                if tunnel_count > 1 {
                    return Err("配置文件只能包含一个隧道段".to_string());
                }
                tunnel_names.push(current_section.clone());
            }
            continue;
        }
        if let Some(pos) = line.find('=') {
            let key = line[..pos].trim();
            let value = line[pos + 1..].trim();
            if current_section == "common" {
                match key {
                    "server_addr" => server_addr = Some(value.to_string()),
                    "server_port" => server_port = value.parse::<u16>().ok(),
                    _ => {}
                }
            } else {
                match key {
                    "type" => tunnel_type = Some(value.to_string()),
                    "custom_domains" => custom_domains = Some(value.to_string()),
                    "subdomain" => subdomain = Some(value.to_string()),
                    "local_ip" => local_ip = Some(value.to_string()),
                    "local_port" => local_port = value.parse::<u16>().ok(),
                    "remote_port" => remote_port = value.parse::<u16>().ok(),
                    _ => {}
                }
            }
        }
    }
    if tunnel_count == 0 {
        return Err("配置文件必须包含至少一个隧道段".to_string());
    }
    Ok((
        server_addr,
        server_port,
        tunnel_names,
        tunnel_type,
        custom_domains,
        subdomain,
        local_ip,
        local_port,
        remote_port,
    ))
}

#[test]
fn the_reading_agrees_with_the_standard_library() {
    let contents = [
        CONFIG,
        "",
        "\n",
        "[t]",
        "[t]\r\ntype = tcp\r\nlocal_port = 80\r\n",
        "[t]\rtype = tcp\r[u]\r",
        "[common]\nserver_port=+7000\n[t]\nremote_port = -1\nlocal_port = 65536\n",
        "[common]\nserver_port = 0007000\nserver_addr=\n[t]\n",
        "  [ spaced ]  \n\ttype\t=\tudp\t\n",
        "[a]\n[common]\n[]\n[a]\n",
        "[a]\n[common]\n[]\ntype = x\n",
        "[\n]\n[]\n=\n==\n[=]\n",
        "[x]=1\n",
        "[[x]]\ntype = a = b\n",
        "#[t]\n;[t]\n [t]\n",
        "\u{3000}[t]\u{a0}\n\u{2003}type\u{2003}=\u{2003}tcp\u{2003}\n",
        "[t]\ntype = tcp\n\n\n",
        "[t]\nTYPE = tcp\ntype= a\ntype =b\n type = c \n",
        "[数据库]\nlocal_ip = 本地\n",
        "[t]\nlocal_port = ８０\n",
        "[common]\n[common]\nserver_addr = a\n[t]\nserver_addr = b\n[common]\nserver_port = 1\n",
        "type = before\n[t]\n",
        "[t]\x0btype = tcp\x0c\n[u]",
    ];
    for content in contents {
        let ours = parse_ini_config(content).map(|info| {
            (
                info.server_addr,
                info.server_port,
                info.tunnel_names,
                info.tunnel_type,
                info.custom_domains,
                info.subdomain,
                info.local_ip,
                info.local_port,
                info.remote_port,
            )
        });
        assert_eq!(ours, by_the_standard_library(content), "for {:?}", content);
    }
}
