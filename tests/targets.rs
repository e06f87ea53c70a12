use pdb_fetch::layout::{
    group_of, lookup_url, plan_target, sanitize_name, split_accessions, TargetRecord,
};

#[test]
fn name_separators_are_replaced() {
    assert_eq!(sanitize_name("Ras/Raf kinase"), "Ras|Raf kinase".to_string());
    assert_eq!(sanitize_name("plain"), "plain".to_string());
}

#[test]
fn records_are_grouped_by_index() {
    assert_eq!(group_of(0, 1), 0);
    assert_eq!(group_of(7, 1), 7);
    assert_eq!(group_of(7, 3), 2);
    assert_eq!(group_of(9, 3), 3);
}

#[test]
fn accessions_are_split_in_order() {
    assert_eq!(
        split_accessions("P12345|Q67890"),
        vec!["P12345".to_string(), "Q67890".to_string()]
    );
    assert_eq!(split_accessions("P12345"), vec!["P12345".to_string()]);
}

#[test]
fn empty_accession_pieces_are_dropped() {
    assert_eq!(
        split_accessions("|P1||Q2|"),
        vec!["P1".to_string(), "Q2".to_string()]
    );
}

#[test]
fn empty_accession_field_schedules_nothing() {
    let plan = plan_target(&TargetRecord {
        id: "CHEMBL203".to_string(),
        name: "EGFR/ErbB1".to_string(),
        accession_field: String::new(),
    });
    assert_eq!(plan.dir_name, "EGFR|ErbB1".to_string());
    assert_eq!(plan.marker_name, "CHEMBL203".to_string());
    assert!(plan.accessions.is_empty());
}

#[test]
fn plan_lists_accessions() {
    let plan = plan_target(&TargetRecord {
        id: "CHEMBL1".to_string(),
        name: "Kinase".to_string(),
        accession_field: "P00533|Q9Y6K9".to_string(),
    });
    assert_eq!(plan.accessions, vec!["P00533".to_string(), "Q9Y6K9".to_string()]);
}

#[test]
fn lookup_url_appends_accession() {
    assert_eq!(
        lookup_url("https://rest.uniprot.org/uniprotkb", "P00533"),
        "https://rest.uniprot.org/uniprotkb/P00533.txt".to_string()
    );
}
