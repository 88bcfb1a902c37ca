//! Tests of the line-classification helpers and the small node methods.

use pma_tree::model::NodeType;
use pma_tree::read_pma::{
    Nav, PMAFile, PMANode, get_indentation_level, is_node, split_into_tuple,
};

#[test]
fn is_node_classifies_lines() {
    assert!(is_node("IObjeto - Rota 2"));
    assert!(is_node("DadosComuns"));
    assert!(is_node(""));
    assert!(is_node("a - b = c"));
    assert!(!is_node("Nome = Rota 2"));
    assert!(!is_node("a = b - c"));
    assert!(!is_node("="));
}

#[test]
fn indentation_counts_leading_tabs() {
    assert_eq!(get_indentation_level("IObjeto - A"), 0);
    assert_eq!(get_indentation_level("\tDadosComuns"), 1);
    assert_eq!(get_indentation_level("\t\t\tPosicao.Lat = 0"), 3);
    assert_eq!(get_indentation_level("\t\t"), 2);
    assert_eq!(get_indentation_level(""), 0);
}

#[test]
fn split_into_tuple_splits_on_first_separator() {
    assert_eq!(
        split_into_tuple("Nome = Rota 2", "="),
        ("Nome".to_string(), Some("Rota 2".to_string()))
    );
    assert_eq!(split_into_tuple("Chave", "="), ("Chave".to_string(), None));
    assert_eq!(split_into_tuple("Chave = ", "="), ("Chave".to_string(), None));
    assert_eq!(
        split_into_tuple("a = b = c", "="),
        ("a".to_string(), Some("b = c".to_string()))
    );
    assert_eq!(
        split_into_tuple("lat :: -29.7", "::"),
        ("lat".to_string(), Some("-29.7".to_string()))
    );
}

#[test]
fn node_type_recognizes_keywords() {
    assert!(matches!(NodeType::from_str("IObjeto"), Ok(NodeType::IObjeto)));
    assert!(matches!(NodeType::from_str("IObjetoNav"), Ok(NodeType::IObjetoNav)));
    assert!(matches!(NodeType::from_str("GateIn"), Ok(NodeType::GateIn)));
    assert!(matches!(NodeType::from_str("GateOut"), Ok(NodeType::GateOut)));
    assert!(matches!(NodeType::from_str("DadosComuns"), Ok(NodeType::DadosComuns)));
    assert!(matches!(
        NodeType::from_str("DadosEspecificos"),
        Ok(NodeType::DadosEspecificos)
    ));
    assert!(matches!(NodeType::from_str("Filhos"), Ok(NodeType::Filhos)));
    assert!(matches!(NodeType::from_str("Qualquer"), Ok(NodeType::Other)));
}

#[test]
fn nav_recognizes_type_names() {
    assert_eq!(Nav::from_str("NavRota"), Ok(Nav::Rota));
    assert_eq!(Nav::from_str("NavWaypoint"), Ok(Nav::Waypoint));
    assert_eq!(Nav::from_str("NavReccelite"), Ok(Nav::Reccelite));
    assert_eq!(Nav::from_str("NavPerna"), Ok(Nav::Perna));
    assert_eq!(Nav::from_str("Rota"), Err(()));
}

#[test]
fn update_name_trims_and_update_level_sets() {
    let mut node = PMANode::default();
    node.update_name("  IObjeto - A \t");
    assert_eq!(node.name, "IObjeto - A");
    node.update_level(4);
    assert_eq!(node.level, 4);
}

#[test]
fn add_parameter_overwrites() {
    let mut node = PMANode::default();
    node.add_parameter("k".to_string(), Some("1".to_string()));
    node.add_parameter("k".to_string(), Some("2".to_string()));
    assert_eq!(node.parameters.get("k"), Some(Some("2".to_string())));
    assert_eq!(node.parameters.get("absent"), None);
}

#[test]
fn get_nodes_by_type_matches_on_parameter_key() {
    let mut node = PMANode::default();
    node.update_name("IObjeto - A");
    node.add_parameter("NavRota".to_string(), None);
    let found = node.get_nodes_by_type("NavRota");
    assert!(found.is_some());
    let copy = found.unwrap();
    assert_eq!(copy.name, "IObjeto - A");
    assert_eq!(copy.parameters.get("NavRota"), Some(None));
    assert!(node.get_nodes_by_type("NavWaypoint").is_none());
}

#[test]
fn push_nod_appends() {
    let mut file = PMAFile::default();
    let mut node = PMANode::default();
    node.update_name("IObjeto - A");
    file.push_nod(node);
    assert_eq!(file.0.len(), 1);
    assert_eq!(file.0[0].name, "IObjeto - A");
}

#[test]
fn clone_is_independent() {
    let mut node = PMANode::default();
    node.update_name("IObjeto - A");
    node.add_parameter("k".to_string(), Some("v".to_string()));
    let copy = node.clone();
    node.update_name("IObjeto - B");
    assert_eq!(copy.name, "IObjeto - A");
    assert_eq!(copy.parameters.get("k"), Some(Some("v".to_string())));
    assert_eq!(node.name, "IObjeto - B");
}

#[test]
fn carriage_returns_before_line_feeds_are_stripped() {
    let mut file = PMAFile::default();
    file.read("IObjeto - A\r\n\tDadosComuns\r\n\t\tNome = A\r\n");
    assert_eq!(file.0.len(), 1);
    assert_eq!(file.0[0].name, "IObjeto - A");
    assert_eq!(
        file.0[0].object_data.common_data.get("Nome"),
        Some(Some("A".to_string()))
    );
}
