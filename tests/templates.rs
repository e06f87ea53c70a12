use pdb_fetch::template::{file_name_of, mirror_location, resolve_template, TemplateError};

#[test]
fn template_marker_is_replaced() {
    assert_eq!(
        resolve_template("https://files.rcsb.org/download/%.pdb", "1abc"),
        Ok("https://files.rcsb.org/download/1abc.pdb".to_string())
    );
}

#[test]
fn template_only_first_marker_is_replaced() {
    assert_eq!(resolve_template("a%b%c", "X"), Ok("aXb%c".to_string()));
}

#[test]
fn template_without_marker_is_error() {
    assert_eq!(
        resolve_template("https://files.rcsb.org/download/1abc.pdb", "1abc"),
        Err(TemplateError::NoMarker)
    );
}

#[test]
fn file_name_is_last_segment() {
    assert_eq!(file_name_of("/pub/pdb/1abc.cif.gz"), Some("1abc.cif.gz".to_string()));
    assert_eq!(file_name_of("plain"), Some("plain".to_string()));
    assert_eq!(file_name_of("/dir/"), None);
    assert_eq!(file_name_of(""), None);
}

#[test]
fn location_gives_url_and_file_name() {
    assert_eq!(
        mirror_location("https://files.rcsb.org/download/%.pdb", "1abc"),
        Ok((
            "https://files.rcsb.org/download/1abc.pdb".to_string(),
            "1abc.pdb".to_string()
        ))
    );
}

#[test]
fn location_file_name_ignores_query() {
    assert_eq!(
        mirror_location("https://example.org/get/%.cif?format=gz", "2xyz"),
        Ok((
            "https://example.org/get/2xyz.cif?format=gz".to_string(),
            "2xyz.cif".to_string()
        ))
    );
}

#[test]
fn location_rejects_text_that_is_no_url() {
    assert_eq!(mirror_location("no url here %", "1abc"), Err(TemplateError::InvalidUrl));
}

#[test]
fn location_rejects_path_without_file_name() {
    assert_eq!(
        mirror_location("https://example.org/%/", "1abc"),
        Err(TemplateError::NoFileName)
    );
}

#[test]
fn location_without_marker_is_error() {
    assert_eq!(
        mirror_location("https://example.org/x.pdb", "1abc"),
        Err(TemplateError::NoMarker)
    );
}
