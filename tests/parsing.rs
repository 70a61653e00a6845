use fi::cargo::{parse_cargo, CargoBackend};
use fi::dnf::{parse_dnf, DnfBackend};
use fi::flatpak::{parse_flatpak, FlatpakBackend};

#[test]
fn dnf_lines_give_name_with_arch_and_identifier_without() {
    let out = "Updating and loading repositories:\nRepositories loaded.\nMatched fields: name\n python3.x86_64\tPython 3 interpreter\n\nvim.noarch\t Vi improved \nplain\tNo arch here\n";
    let r = parse_dnf(out);
    assert_eq!(r.len(), 3);
    assert_eq!(r[0].backend, "dnf");
    assert_eq!(r[0].name, "python3 (x86_64)");
    assert_eq!(r[0].identifier, "python3");
    assert_eq!(r[0].description, "Python 3 interpreter");
    assert!(r[0].version.is_none());
    assert_eq!(r[1].name, "vim (noarch)");
    assert_eq!(r[1].description, "Vi improved");
    assert_eq!(r[2].name, "plain");
    assert_eq!(r[2].identifier, "plain");
}

#[test]
fn dnf_skips_lines_without_description_or_tab() {
    let r = parse_dnf("name.x86_64\t   \nno tab here\n\tonly description\r\na.b.c\tdots\r\n");
    assert_eq!(r.len(), 1);
    assert_eq!(r[0].name, "a.b (c)");
    assert_eq!(r[0].identifier, "a.b");
    assert_eq!(r[0].description, "dots");
}

#[test]
fn dnf_empty_output_gives_nothing() {
    assert!(parse_dnf("").is_empty());
}

#[test]
fn flatpak_lines_give_application_records() {
    let out = "Discord\tChat and voice client\tcom.discordapp.Discord\t1.0.0\tstable\tflathub\nTool\t\torg.example.Tool\t\tstable\tflathub\nShort\tonly two\n";
    let r = parse_flatpak(out);
    assert_eq!(r.len(), 2);
    assert_eq!(r[0].backend, "flatpak");
    assert_eq!(r[0].name, "Discord");
    assert_eq!(r[0].identifier, "com.discordapp.Discord");
    assert_eq!(r[0].description, "Chat and voice client");
    assert_eq!(r[0].version.as_deref(), Some("1.0.0"));
    assert_eq!(r[1].description, "No description available");
    assert!(r[1].version.is_none());
}

#[test]
fn flatpak_skips_records_without_name_or_id() {
    let r = parse_flatpak("\tdesc\tid\n name \tdesc\t \nA\tB\tC");
    assert_eq!(r.len(), 1);
    assert_eq!(r[0].name, "A");
    assert_eq!(r[0].identifier, "C");
    assert!(r[0].version.is_none());
}

#[test]
fn cargo_lines_give_crates_with_versions() {
    let out = "serde = \"1.0.200\"    # A generic serialization framework\ntest = \"0.1.0\"\n... and 120 crates more (use --limit N to see more)\nnote: to learn more about a package, run `cargo info <name>`\n";
    let r = parse_cargo(out);
    assert_eq!(r.len(), 2);
    assert_eq!(r[0].backend, "cargo");
    assert_eq!(r[0].name, "serde");
    assert_eq!(r[0].identifier, "serde");
    assert_eq!(r[0].version.as_deref(), Some("1.0.200"));
    assert_eq!(r[0].description, "A generic serialization framework");
    assert_eq!(r[1].version.as_deref(), Some("0.1.0"));
    assert_eq!(r[1].description, "No description available");
}

#[test]
fn cargo_lines_without_quotes() {
    let r = parse_cargo("a = 0.2 # plain\nb = \"open quote\n = \"1\" # nameless\nc = # only\n");
    assert_eq!(r.len(), 3);
    assert_eq!(r[0].version.as_deref(), Some("0.2"));
    assert_eq!(r[0].description, "plain");
    assert!(r[1].version.is_none());
    assert_eq!(r[1].description, "\"open quote");
    assert_eq!(r[2].name, "c");
    assert!(r[2].version.is_none());
    assert_eq!(r[2].description, "only");
}

#[test]
fn backend_names_and_commands() {
    assert_eq!(DnfBackend.name(), "dnf");
    assert_eq!(FlatpakBackend.name(), "flatpak");
    assert_eq!(CargoBackend.name(), "cargo");
    assert_eq!(
        DnfBackend.search_command("vim"),
        vec!["dnf", "search", "--assumeyes", "--setopt=assumeyes=True", "vim"]
    );
    assert_eq!(FlatpakBackend.search_command("gimp"), vec!["flatpak", "search", "gimp"]);
    assert_eq!(CargoBackend.search_command("serde"), vec!["cargo", "search", "serde"]);
    let pkg = parse_cargo("ripgrep = \"14.1.0\" # search\n").remove(0);
    assert_eq!(CargoBackend.install_command(&pkg), vec!["cargo", "install", "ripgrep"]);
    assert_eq!(DnfBackend.install_command(&pkg), vec!["sudo", "dnf", "install", "-y", "ripgrep"]);
    assert_eq!(
        FlatpakBackend.install_command(&pkg),
        vec!["flatpak", "install", "flathub", "ripgrep"]
    );
}

#[test]
fn install_results() {
    assert!(DnfBackend.install_result(true).is_ok());
    assert_eq!(DnfBackend.install_result(false), Err("DNF install failed".to_string()));
    assert_eq!(FlatpakBackend.install_result(false), Err("Flatpak install failed".to_string()));
    assert_eq!(CargoBackend.install_result(false), Err("Cargo install failed".to_string()));
}
