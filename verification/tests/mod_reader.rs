//! What mod JARs say of themselves.
use std::io::Write;

use lbby_core::app_state::ModStatus;
use lbby_core::mod_reader::{
    fabric_dependencies, fabric_mod_info, first_forge_mod, forge_dependencies, forge_mod_ids,
    forge_mod_info, icon_mime, json_string, normalize_mod_info, read_all_forge_mod_ids,
    read_fabric_dependencies, read_fabric_icon_path, read_forge_dependencies, read_listed_names,
    read_mod_info, read_zip_icon_data_url, read_zip_text, toml_string, MAX_ICON_BYTES,
};
use lbby_core::structured::{parse_json, parse_toml, Data};

fn make_jar(entries: &[(&str, &[u8])]) -> Vec<u8> {
    let mut zip = zip::ZipWriter::new(std::io::Cursor::new(Vec::new()));
    let options = zip::write::SimpleFileOptions::default()
        .compression_method(zip::CompressionMethod::Stored);
    for (name, content) in entries {
        zip.start_file(*name, options).unwrap();
        zip.write_all(content).unwrap();
    }
    zip.finish().unwrap().into_inner()
}

const PNG: &[u8] = b"\x89PNG\r\n\x1a\nrest";

#[test]
fn test_neoforge_dependency_parsing() {
    let test_toml = r#"
modLoader="javafml"
loaderVersion="[4,)"

[[mods]]
modId="testmod"
displayName="Test Mod"

[[dependencies.testmod]]
    modId="neoforge"
    type="required"
    versionRange="[21.1.0,)"

[[dependencies.testmod]]
    modId="minecraft"
    type="required"
    versionRange="[1.21,)"

[[dependencies.testmod]]
    modId="create"
    type="required"
    versionRange="[6.0.9,)"

[[dependencies.testmod]]
    modId="curios"
    mandatory=true
    versionRange="[9.0.0,)"
"#;
    let value = parse_toml(test_toml).unwrap();
    let result = forge_dependencies(&value);
    assert_eq!(result.len(), 2, "Should find create and curios as dependencies");
    assert!(result.iter().any(|(id, _)| id == "create"), "Should find create");
    assert!(result.iter().any(|(id, _)| id == "curios"), "Should find curios");
}

#[test]
fn forge_helpers_filter_java_pseudo_dep() {
    let toml = b"modLoader=\"javafml\"\nloaderVersion=\"[47,)\"\n\n[[mods]]\nmodId=\"testmod\"\n\n[[dependencies.testmod]]\nmodId=\"java\"\nversionRange=\"[17,)\"\nmandatory=true\nside=\"BOTH\"\n\n[[dependencies.testmod]]\nmodId=\"minecraft\"\nversionRange=\"[1.20.1,1.21)\"\nmandatory=true\nside=\"BOTH\"\n\n[[dependencies.testmod]]\nmodId=\"forge\"\nversionRange=\"[47,)\"\nmandatory=true\nside=\"BOTH\"\n\n[[dependencies.testmod]]\nmodId=\"neoforge\"\nversionRange=\"[20.4,)\"\nmandatory=false\nside=\"BOTH\"\n\n[[dependencies.testmod]]\nmodId=\"embeddium\"\nversionRange=\"[0.3.1,)\"\nmandatory=true\nside=\"CLIENT\"\n\n[[dependencies.testmod]]\nmodId=\"flywheel\"\nversionRange=\"[0.6,)\"\nmandatory=true\nside=\"BOTH\"\n";
    let deps = read_forge_dependencies(&make_jar(&[("META-INF/mods.toml", toml)]));
    assert!(
        !deps.iter().any(|(id, _)| id == "java"),
        "java must NOT appear as a download dependency"
    );
    assert!(!deps.iter().any(|(id, _)| id == "minecraft"), "minecraft must NOT appear");
    assert!(!deps.iter().any(|(id, _)| id == "forge"), "forge must NOT appear");
    assert!(!deps.iter().any(|(id, _)| id == "neoforge"), "neoforge must NOT appear");
    assert!(
        deps.iter().any(|(id, _)| id == "flywheel"),
        "flywheel should remain as a real dependency"
    );
    assert!(
        deps.iter().any(|(id, _)| id == "embeddium"),
        "embeddium should remain as a real dependency"
    );
    assert!(deps.contains(&("flywheel".to_string(), "[0.6,)".to_string())));
}

#[test]
fn fabric_helpers_filter_java_pseudo_dep() {
    let json = b"{\"schemaVersion\":1,\"id\":\"testmod\",\"environment\":\"*\",\"depends\":{\"java\":\">=17\",\"minecraft\":\"1.20.1\",\"fabricloader\":\">=0.14\",\"fabric\":\"*\",\"real_lib\":\">=2.0\"}}";
    let deps = read_fabric_dependencies(&make_jar(&[("fabric.mod.json", json)]));
    assert!(
        !deps.iter().any(|(id, _)| id == "java"),
        "java must NOT appear as a download dependency"
    );
    assert!(!deps.iter().any(|(id, _)| id == "minecraft"), "minecraft must NOT appear");
    assert!(!deps.iter().any(|(id, _)| id == "fabricloader"), "fabricloader must NOT appear");
    assert!(!deps.iter().any(|(id, _)| id == "fabric"), "fabric must NOT appear");
    assert!(
        deps.iter().any(|(id, _)| id == "real_lib"),
        "real_lib should remain as a real dependency"
    );
}

#[test]
fn dependency_ranges_that_are_no_text_are_open() {
    let value = parse_json(r#"{"depends":{"lib":[">=1","<2"],"other":"1.0"}}"#).unwrap();
    assert_eq!(
        fabric_dependencies(&value),
        vec![
            ("lib".to_string(), "*".to_string()),
            ("other".to_string(), "1.0".to_string())
        ]
    );
}

#[test]
fn optional_forge_dependencies_are_left_out() {
    let value = parse_toml(
        "[[dependencies.m]]\nmodId=\"a\"\nmandatory=false\n[[dependencies.m]]\nmodId=\"b\"\nmandatory=false\ntype=\"REQUIRED\"\n[[dependencies.m]]\nmandatory=true\n",
    )
    .unwrap();
    assert_eq!(forge_dependencies(&value), vec![("b".to_string(), String::new())]);
}

#[test]
fn texts_are_read_from_archives() {
    let jar = make_jar(&[("a.txt", b"hello"), ("b.bin", b"\xff\xfe")]);
    assert_eq!(read_zip_text(&jar, "a.txt").as_deref(), Some("hello"));
    assert_eq!(read_zip_text(&jar, "b.bin"), None);
    assert_eq!(read_zip_text(&jar, "c.txt"), None);
    assert_eq!(read_zip_text(b"no archive", "a.txt"), None);
}

#[test]
fn fabric_metadata_makes_a_card() {
    let json = br#"{"id":"lib","name":"Library","version":" 1.2 ","description":"Does things","authors":["A",{"name":" B "},{"x":1},"${author}"],"icon":{"32":"small.png","64":"/assets/icon.png"}}"#;
    let jar = make_jar(&[("fabric.mod.json", json), ("assets/icon.png", PNG)]);
    let info = read_mod_info("/srv/mods/lib-1.2.jar", Some(&jar));
    assert_eq!(info.file_name, "lib-1.2.jar");
    assert_eq!(info.display_name, "Library");
    assert_eq!(info.version, "1.2");
    assert_eq!(info.authors, vec!["A", "B"]);
    assert_eq!(info.description, "Does things");
    assert_eq!(info.icon_data_url.as_deref(), Some("data:image/png;base64,iVBORw0KGgpyZXN0"));
    assert_eq!(info.status, ModStatus::Readable);
    assert!(info.mod_id.is_none());
}

#[test]
fn fabric_names_fall_back() {
    let by_id = parse_json(r#"{"id":"lib"}"#).unwrap();
    assert_eq!(fabric_mod_info(&by_id, "x.jar", None).display_name, "lib");
    let nameless = parse_json("{}").unwrap();
    assert_eq!(fabric_mod_info(&nameless, "x.jar.jar", None).display_name, "x");
}

#[test]
fn forge_metadata_makes_a_card() {
    let toml = "[[mods]]\nmodId=\"core\"\ndisplayName=\"Core\"\nversion=\"${file.jarVersion}\"\nauthors=\"A, B;C ,\"\ndescription=\"d\"\nlogoFile=\"logo.jpg\"\n[[mods]]\nmodId=\"api\"\n[[mods]]\nmodId=\" core \"\n";
    let jar = make_jar(&[
        ("META-INF/mods.toml", toml.as_bytes()),
        ("logo.jpg", b"\xff\xd8\xff\xe0"),
    ]);
    let info = read_mod_info("core.jar", Some(&jar));
    assert_eq!(info.display_name, "Core");
    assert_eq!(info.version, "");
    assert_eq!(info.authors, vec!["A", "B", "C"]);
    assert_eq!(info.icon_data_url.as_deref(), Some("data:image/jpeg;base64,/9j/4A=="));
    assert_eq!(read_all_forge_mod_ids(&jar), vec!["core", "api"]);
}

#[test]
fn neoforge_metadata_comes_first() {
    let jar = make_jar(&[
        ("mods.toml", b"[[mods]]\nmodId=\"third\"\n"),
        ("META-INF/mods.toml", b"[[mods]]\nmodId=\"second\"\n"),
        ("META-INF/neoforge.mods.toml", b"[[mods]]\nmodId=\"first\"\n"),
    ]);
    assert_eq!(read_all_forge_mod_ids(&jar), vec!["first"]);
    assert_eq!(read_mod_info("a.jar", Some(&jar)).display_name, "first");
}

#[test]
fn files_without_metadata_keep_their_name() {
    let info = read_mod_info("/mods/mystery.jar", Some(&make_jar(&[("x", b"y" as &[u8])])));
    assert_eq!(info.display_name, "mystery");
    assert_eq!(info.status, ModStatus::Readable);
    let broken = read_mod_info("/mods/broken.tmod", Some(b"no archive"));
    assert_eq!(broken.display_name, "broken");
    assert_eq!(broken.status, ModStatus::Unreadable);
    assert_eq!(read_mod_info("gone.jar", None).status, ModStatus::Unreadable);
}

#[test]
fn blank_names_are_replaced() {
    let value = parse_toml("displayName=\"  \"\n").unwrap();
    let info = normalize_mod_info(forge_mod_info(&value, "thing.jar", None));
    assert_eq!(info.display_name, "thing");
}

#[test]
fn icons_are_pictures_of_a_bearable_size() {
    assert_eq!(icon_mime(PNG), Some("image/png"));
    assert_eq!(icon_mime(b"\xff\xd8\xff"), Some("image/jpeg"));
    assert_eq!(icon_mime(b"GIF89a"), None);
    assert_eq!(icon_mime(b""), None);
    let mut large = PNG.to_vec();
    large.resize(MAX_ICON_BYTES, 0);
    assert!(icon_mime(&large).is_some());
    large.push(0);
    assert!(icon_mime(&large).is_none());
    let jar = make_jar(&[("icon.png", PNG)]);
    assert!(read_zip_icon_data_url(&jar, " //icon.png ").is_some());
    assert!(read_zip_icon_data_url(&jar, " / ").is_none());
    assert!(read_zip_icon_data_url(&jar, "other.png").is_none());
}

#[test]
fn icon_paths_by_size() {
    let path = |s: &str| read_fabric_icon_path(&parse_json(s).unwrap());
    assert_eq!(path(r#"{"icon":"a.png"}"#).as_deref(), Some("a.png"));
    assert_eq!(path(r#"{"icon":{"128":"b.png","256":"c.png"}}"#).as_deref(), Some("b.png"));
    assert_eq!(path(r#"{"icon":{"128":"b.png","64":"d.png"}}"#).as_deref(), Some("d.png"));
    assert_eq!(path(r#"{"icon":{"64":1}}"#), None);
    assert_eq!(path(r#"{"icon":{}}"#), None);
    assert_eq!(path(r#"{}"#), None);
}

#[test]
fn single_values_are_read() {
    let value = parse_json(r#"{"a":"x","b":1}"#).unwrap();
    assert_eq!(json_string(&value, "a"), "x");
    assert_eq!(json_string(&value, "b"), "");
    assert_eq!(json_string(&value, "c"), "");
    let value = parse_toml("a = \"y\"\n").unwrap();
    assert_eq!(toml_string(&value, "a"), "y");
    assert_eq!(read_listed_names(" a ,; b"), vec!["a", "b"]);
}

#[test]
fn formats_are_taken_apart() {
    match parse_json(r#"{"b":[true,null,1.5],"a":{}}"#) {
        Some(Data::Table(entries)) => {
            assert_eq!(entries[0].0, "a");
            assert_eq!(entries[1].0, "b");
            match &entries[1].1 {
                Data::List(items) => {
                    assert!(matches!(items[0], Data::Bool(true)));
                    assert!(matches!(items[1], Data::Null));
                    assert!(matches!(&items[2], Data::Scalar(s) if s == "1.5"));
                }
                other => panic!("Expected a list, got {:?}", other),
            }
        }
        other => panic!("Expected a table, got {:?}", other),
    }
    assert!(parse_json("{").is_none());
    assert!(parse_toml("= 1").is_none());
    let dated = parse_toml("d = 1979-05-27\nf = 1.5\nn = 3\n").unwrap();
    assert!(matches!(dated.get("d"), Some(Data::Scalar(s)) if s == "1979-05-27"));
    assert!(matches!(dated.get("n"), Some(Data::Scalar(s)) if s == "3"));
}

#[test]
fn first_mods_and_ids() {
    let value = parse_toml("[[mods]]\nmodId=\"a\"\n[[mods]]\nmodId=\"a\"\n[[mods]]\nmodId=\"\"\n").unwrap();
    assert_eq!(forge_mod_ids(&value), vec!["a"]);
    assert!(first_forge_mod(&value).is_some());
    assert!(first_forge_mod(&parse_toml("mods = []\n").unwrap()).is_none());
    assert!(first_forge_mod(&parse_toml("").unwrap()).is_none());
}

#[test]
fn test_real_jar_dependencies() {
    let toml = b"modLoader=\"javafml\"\nloaderVersion=\"[4,)\"\n\n[[mods]]\nmodId=\"irons_jewelry\"\n\n[[dependencies.irons_jewelry]]\nmodId=\"neoforge\"\ntype=\"required\"\nversionRange=\"[21.1,)\"\n\n[[dependencies.irons_jewelry]]\nmodId=\"apothic_attributes\"\ntype=\"required\"\nversionRange=\"[2.9,)\"\n";
    let deps = read_forge_dependencies(&make_jar(&[("META-INF/neoforge.mods.toml", toml)]));
    println!("irons_jewelry deps: {:?}", deps);
    assert!(!deps.is_empty(), "Should find dependencies");
    assert!(
        deps.iter().any(|(id, _)| id == "apothic_attributes"),
        "Should find apothic_attributes"
    );
}
