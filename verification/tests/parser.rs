//! End-to-end parsing tests over whole documents.

use pma_tree::read_pma::{IObjeto, PMAFile};

fn parse(content: &str) -> PMAFile {
    let mut file = PMAFile::default();
    file.read(content);
    file
}

fn value(p: &pma_tree::params::Params, key: &str) -> Option<Option<String>> {
    p.get(key)
}

#[test]
fn test_reading_pma_file() {
    let content = "IObjeto - Rota 2\n\
                   \tDadosComuns\n\
                   \t\tNome = Rota 2\n\
                   \t\tTipo = NavRota\n\
                   \tDadosEspecificos\n\
                   \t\tIObjetoNav\n\
                   \t\t\tGateIn\n\
                   \t\t\t\tPosicao.Lat = 0\n\
                   \t\t\t\tPosicao.Lon = 0\n\
                   \t\t\t\tStringConfiguracao = 6910 206 4572\n\
                   \t\t\tGateOut\n\
                   \t\t\t\tPosicao.Lat = 0\n\
                   \t\t\t\tPosicao.Lon = 0\n\
                   \t\t\t\tStringConfiguracao = 6910 206 4572\n\
                   \t\tAeronaveNome = A1_0A\n\
                   \tFilhos\n\
                   \t\tIObjeto - SM11\n\
                   \t\t\tDadosComuns\n\
                   \t\t\t\tNome = SM11\n\
                   \t\t\t\tTipo = NavWaypoint\n\
                   \t\t\tDadosEspecificos\n\
                   \t\t\t\tIObjetoNav\n\
                   \t\t\t\t\tGateIn\n\
                   \t\t\t\t\t\tPosicao.Lat = -29.710547222\n\
                   \t\t\t\t\t\tPosicao.Lon = -53.703902778\n\
                   \t\t\t\t\t\tStringConfiguracao = 6910 206 4572\n\
                   \t\t\t\t\tGateOut\n\
                   \t\t\t\t\t\tPosicao.Lat = -29.710547222\n\
                   \t\t\t\t\t\tPosicao.Lon = -53.703902778\n\
                   \t\t\t\t\t\tStringConfiguracao = 6910 206 4572\n\
                   \t\t\t\tWaypointSubtipo = 2694x45\n\
                   \t\t\tFilhos\n";
    let file = parse(content);

    assert_eq!(file.0.len(), 1);
    let node = &file.0[0];
    assert_eq!(node.level, 0);
    assert_eq!(node.name, "IObjeto - Rota 2");
    assert_eq!(node.parameters.entries.len(), 0);

    let obj = &node.object_data;
    assert_eq!(obj.level, 0);
    assert_eq!(obj.common_data.entries.len(), 2);
    assert_eq!(value(&obj.common_data, "Nome"), Some(Some("Rota 2".to_string())));
    assert_eq!(value(&obj.common_data, "Tipo"), Some(Some("NavRota".to_string())));
    assert_eq!(obj.specific_data.0.entries.len(), 1);
    assert_eq!(
        value(&obj.specific_data.0, "AeronaveNome"),
        Some(Some("A1_0A".to_string()))
    );
    let gate_in = &obj.specific_data.1.gate_in.parameters;
    assert_eq!(gate_in.entries.len(), 3);
    assert_eq!(value(gate_in, "Posicao.Lat"), Some(Some("0".to_string())));
    assert_eq!(value(gate_in, "Posicao.Lon"), Some(Some("0".to_string())));
    assert_eq!(
        value(gate_in, "StringConfiguracao"),
        Some(Some("6910 206 4572".to_string()))
    );
    let gate_out = &obj.specific_data.1.gate_out.parameters;
    assert_eq!(gate_out.entries.len(), 3);
    assert_eq!(value(gate_out, "Posicao.Lat"), Some(Some("0".to_string())));
    assert_eq!(value(gate_out, "Posicao.Lon"), Some(Some("0".to_string())));
    assert_eq!(
        value(gate_out, "StringConfiguracao"),
        Some(Some("6910 206 4572".to_string()))
    );

    assert_eq!(node.sons.len(), 1);
    let son: &IObjeto = &node.sons[0];
    assert_eq!(son.level, 2);
    assert_eq!(son.common_data.entries.len(), 2);
    assert_eq!(value(&son.common_data, "Nome"), Some(Some("SM11".to_string())));
    assert_eq!(value(&son.common_data, "Tipo"), Some(Some("NavWaypoint".to_string())));
    assert_eq!(son.specific_data.0.entries.len(), 1);
    assert_eq!(
        value(&son.specific_data.0, "WaypointSubtipo"),
        Some(Some("2694x45".to_string()))
    );
    let son_in = &son.specific_data.1.gate_in.parameters;
    assert_eq!(son_in.entries.len(), 3);
    assert_eq!(
        value(son_in, "Posicao.Lat"),
        Some(Some("-29.710547222".to_string()))
    );
    assert_eq!(
        value(son_in, "Posicao.Lon"),
        Some(Some("-53.703902778".to_string()))
    );
    assert_eq!(
        value(son_in, "StringConfiguracao"),
        Some(Some("6910 206 4572".to_string()))
    );
    let son_out = &son.specific_data.1.gate_out.parameters;
    assert_eq!(son_out.entries.len(), 3);
    assert_eq!(
        value(son_out, "Posicao.Lat"),
        Some(Some("-29.710547222".to_string()))
    );
    assert_eq!(
        value(son_out, "Posicao.Lon"),
        Some(Some("-53.703902778".to_string()))
    );
    assert_eq!(
        value(son_out, "StringConfiguracao"),
        Some(Some("6910 206 4572".to_string()))
    );
}

#[test]
fn one_node_with_common_data() {
    // one header, one common-data block, no children
    let file = parse("IObjeto - Rota 2\n\tDadosComuns\n\t\tNome = Rota 2\n\t\tTipo = NavRota\n");
    assert_eq!(file.0.len(), 1);
    let node = &file.0[0];
    assert_eq!(node.name, "IObjeto - Rota 2");
    assert_eq!(node.level, 0);
    let common = &node.object_data.common_data;
    assert_eq!(common.entries.len(), 2);
    assert_eq!(value(common, "Nome"), Some(Some("Rota 2".to_string())));
    assert_eq!(value(common, "Tipo"), Some(Some("NavRota".to_string())));
    assert_eq!(node.sons.len(), 0);
    assert_eq!(node.parameters.entries.len(), 0);
}

#[test]
fn nil_marker_does_not_open_context() {
    // a `Nil` header-shaped line is absorbed as a parameter of the current
    // bucket and neither renames the node nor disturbs later routing
    let file = parse(
        "IObjeto - A\n\tDadosComuns\n\t\tNome = A\n\t\tIObjeto - Nil\n\t\tTipo = NavRota\n",
    );
    assert_eq!(file.0.len(), 1);
    let node = &file.0[0];
    assert_eq!(node.name, "IObjeto - A");
    let common = &node.object_data.common_data;
    assert_eq!(value(common, "Nome"), Some(Some("A".to_string())));
    assert_eq!(value(common, "IObjeto - Nil"), Some(None));
    assert_eq!(value(common, "Tipo"), Some(Some("NavRota".to_string())));
    assert_eq!(node.sons.len(), 0);
}

#[test]
fn filhos_at_wrong_depth_is_ignored() {
    // `Filhos` two levels down does not open a children block; the following
    // header renames the current node instead of starting a child
    let file = parse(
        "IObjeto - A\n\t\tFilhos\n\t\t\tIObjeto - B\n\t\t\t\tDadosComuns\n\t\t\t\t\tNome = B\n",
    );
    assert_eq!(file.0.len(), 1);
    let node = &file.0[0];
    assert_eq!(node.name, "IObjeto - B");
    assert_eq!(node.level, 3);
    assert_eq!(node.sons.len(), 0);
    assert_eq!(
        value(&node.object_data.common_data, "Nome"),
        Some(Some("B".to_string()))
    );
}

#[test]
fn gate_out_closes_after_string_configuracao() {
    // once GateOut holds StringConfiguracao, the bucket switches and the
    // following key is routed to DadosEspecificos
    let file = parse(
        "IObjeto - A\n\tDadosEspecificos\n\t\tIObjetoNav\n\t\t\tGateOut\n\t\t\t\tPosicao.Lat = 1\n\t\t\t\tStringConfiguracao = 6910\n\t\t\t\tExtra = 2\n",
    );
    assert_eq!(file.0.len(), 1);
    let obj = &file.0[0].object_data;
    let gate_out = &obj.specific_data.1.gate_out.parameters;
    assert_eq!(gate_out.entries.len(), 2);
    assert_eq!(value(gate_out, "Posicao.Lat"), Some(Some("1".to_string())));
    assert_eq!(value(gate_out, "StringConfiguracao"), Some(Some("6910".to_string())));
    assert_eq!(value(gate_out, "Extra"), None);
    assert_eq!(value(&obj.specific_data.0, "Extra"), Some(Some("2".to_string())));
}

#[test]
fn repeated_key_keeps_second_value() {
    // last write wins inside one bucket
    let file = parse("IObjeto - A\n\tDadosComuns\n\t\tNome = X\n\t\tNome = Y\n");
    let common = &file.0[0].object_data.common_data;
    assert_eq!(value(common, "Nome"), Some(Some("Y".to_string())));
}

#[test]
fn buckets_stay_isolated_under_interleaving() {
    // retagging the bucket routes each key to its own destination only
    let file = parse(
        "IObjeto - A\n\tDadosComuns\n\t\tNome = A\n\tDadosEspecificos\n\t\tSub = 1\n\tDadosComuns\n\t\tTipo = T\n",
    );
    let obj = &file.0[0].object_data;
    assert_eq!(obj.common_data.entries.len(), 2);
    assert_eq!(value(&obj.common_data, "Nome"), Some(Some("A".to_string())));
    assert_eq!(value(&obj.common_data, "Tipo"), Some(Some("T".to_string())));
    assert_eq!(value(&obj.common_data, "Sub"), None);
    assert_eq!(obj.specific_data.0.entries.len(), 1);
    assert_eq!(value(&obj.specific_data.0, "Sub"), Some(Some("1".to_string())));
    assert_eq!(value(&obj.specific_data.0, "Nome"), None);
    assert_eq!(value(&obj.specific_data.0, "Tipo"), None);
}

#[test]
fn children_keep_document_order() {
    // two children, emitted in the order their headers appeared
    let file = parse(
        "IObjeto - A\n\tFilhos\n\t\tIObjeto - C1\n\t\t\tDadosComuns\n\t\t\t\tNome = C1\n\t\tIObjeto - C2\n\t\t\tDadosComuns\n\t\t\t\tNome = C2\n",
    );
    assert_eq!(file.0.len(), 1);
    let node = &file.0[0];
    assert_eq!(node.sons.len(), 2);
    assert_eq!(
        value(&node.sons[0].common_data, "Nome"),
        Some(Some("C1".to_string()))
    );
    assert_eq!(
        value(&node.sons[1].common_data, "Nome"),
        Some(Some("C2".to_string()))
    );
}

#[test]
fn sibling_header_terminates_node() {
    // a second header at the same level closes the first node with exactly
    // the attributes collected between the two headers
    let file = parse(
        "IObjeto - A\n\tDadosComuns\n\t\tNome = A\nIObjeto - B\n\tDadosComuns\n\t\tNome = B\n",
    );
    assert_eq!(file.0.len(), 2);
    assert_eq!(file.0[0].name, "IObjeto - A");
    assert_eq!(file.0[1].name, "IObjeto - B");
    let common_a = &file.0[0].object_data.common_data;
    assert_eq!(common_a.entries.len(), 1);
    assert_eq!(value(common_a, "Nome"), Some(Some("A".to_string())));
    let common_b = &file.0[1].object_data.common_data;
    assert_eq!(common_b.entries.len(), 1);
    assert_eq!(value(common_b, "Nome"), Some(Some("B".to_string())));
}

#[test]
fn empty_input_yields_one_empty_node() {
    // the end-of-input flush always emits the node under construction
    let file = parse("");
    assert_eq!(file.0.len(), 1);
    let node = &file.0[0];
    assert_eq!(node.name, "");
    assert_eq!(node.level, 0);
    assert_eq!(node.parameters.entries.len(), 0);
    assert_eq!(node.object_data.common_data.entries.len(), 0);
    assert_eq!(node.sons.len(), 0);
}

#[test]
fn parameter_before_any_header_goes_to_fallback() {
    // with no header seen yet the fallback bucket of the implicit node
    // receives the line
    let file = parse("Chave = Valor\n");
    assert_eq!(file.0.len(), 1);
    let node = &file.0[0];
    assert_eq!(node.name, "");
    assert_eq!(value(&node.parameters, "Chave"), Some(Some("Valor".to_string())));
}

#[test]
fn equals_only_line_yields_empty_key_without_value() {
    let file = parse("IObjeto - A\n\tDadosComuns\n\t\t=\n");
    let common = &file.0[0].object_data.common_data;
    assert_eq!(common.entries.len(), 1);
    assert_eq!(value(common, ""), Some(None));
}

#[test]
fn blank_line_terminates_current_node() {
    // a blank line sits at indentation 0, so it closes the named node; what
    // follows belongs to a fresh, unnamed node that the final flush emits
    let file = parse("IObjeto - A\n\tDadosComuns\n\t\tNome = A\n\n\tChave = 1\n");
    assert_eq!(file.0.len(), 2);
    assert_eq!(file.0[0].name, "IObjeto - A");
    assert_eq!(
        value(&file.0[0].object_data.common_data, "Nome"),
        Some(Some("A".to_string()))
    );
    assert_eq!(file.0[1].name, "");
    assert_eq!(value(&file.0[1].parameters, "Chave"), Some(Some("1".to_string())));
}

#[test]
fn unrecognized_keyword_renames_node_and_selects_fallback() {
    // an unknown bare keyword acts as the `Other` bucket: it renames the
    // node and later parameters go to the node's fallback map
    let file = parse("Estranho\n\tChave = Valor\n");
    assert_eq!(file.0.len(), 1);
    let node = &file.0[0];
    assert_eq!(node.name, "Estranho");
    assert_eq!(value(&node.parameters, "Chave"), Some(Some("Valor".to_string())));
}
