use xtal::agents::{
    agregar_propio, es_propio, presentes, sacar_propio,
    buscar, de_fabrica, elegir, mcp_status, mezclar, slug, todos, Agente, AgentePropio, Estado,
    McpClientArg, McpState, SkillState, Ubicacion, MCP_SERVER_NAME,
};

#[test]
fn un_agente_sin_skills_no_reporta_skill_faltante() {
    // An agent without a skills folder (a desktop client) has no skill path, and
    // its skill state is "not applicable", never "missing".
    let escritorio = Agente {
        id: "escritorio".into(),
        label: "Escritorio".into(),
        dir: Ubicacion::Config("Escritorio".into()),
        bin: None,
        skills: None,
        mcp: None,
        propio: false,
    };
    assert!(escritorio.skill_path().is_none());
    assert_eq!(escritorio.estado_skill(true, &None, "skill"), SkillState::NoAplica);
}

#[test]
fn el_slug_sale_del_nombre() {
    assert_eq!(slug("Mi Agente"), "mi-agente");
    assert_eq!(slug("  Raro!!  ¿che?  "), "raro-che");
    assert_eq!(slug("¿?¡!"), "");
}

#[test]
fn un_agente_propio_se_suma_y_puede_pisar_al_de_fabrica() {
    let propios = vec![
        AgentePropio {
            id: "mi-agente".into(),
            label: "Mi Agente".into(),
            skills: "~/.mi-agente/skills".into(),
            bin: None,
        },
        AgentePropio {
            id: "codex".into(),
            label: "Codex mío".into(),
            skills: "~/.otra/skills".into(),
            bin: None,
        },
    ];
    let lista = mezclar(de_fabrica(), propios);
    let codex = lista.iter().find(|a| a.id == "codex").unwrap();
    assert_eq!(codex.label, "Codex mío");
    assert!(codex.propio);
    assert_eq!(lista.iter().filter(|a| a.id == "codex").count(), 1);
    let mio = lista.iter().find(|a| a.id == "mi-agente").unwrap();
    assert!(mio.toca().contains("~/.mi-agente/skills/xtal/"));
    assert!(mio.mcp.is_none());
}

#[test]
fn una_ruta_con_tilde_cuelga_del_home() {
    assert!(matches!(Ubicacion::desde_usuario("~/.mi-agente/skills"), Ubicacion::Home(_)));
    assert_eq!(Ubicacion::desde_usuario("~/.mi-agente/skills").legible(), "~/.mi-agente/skills");
    assert!(matches!(Ubicacion::desde_usuario("/opt/agente/skills"), Ubicacion::Absoluta(_)));
}

#[test]
fn el_nombre_del_server_es_el_que_escribe_mcp_install() {
    assert_eq!(MCP_SERVER_NAME, "xtal");
}

#[test]
fn los_ids_de_los_agentes_son_unicos_y_estables() {
    let mut ids: Vec<String> = de_fabrica().iter().map(|a| a.id.clone()).collect();
    let total = ids.len();
    ids.sort_unstable();
    ids.dedup();
    assert_eq!(ids.len(), total, "hay ids repetidos");
    assert!(buscar("codex", vec![]).is_some());
    assert!(buscar("no-existe", vec![]).is_none());
}

#[test]
fn cada_agente_dice_que_archivos_toca() {
    for a in de_fabrica() {
        assert!(!a.toca().is_empty(), "{} no dice qué toca", a.id);
    }
    let codex = buscar("codex", vec![]).unwrap();
    assert_eq!(codex.toca(), "skill en ~/.codex/skills/xtal/ y el server MCP en ~/.codex/config.toml");
    assert_eq!(codex.mcp, Some(McpClientArg::Codex));
}

#[test]
fn el_estado_dice_que_falta() {
    let a = buscar("copilot", vec![]).unwrap();
    let skill = "---\nname: xtal\n---\n";
    assert_eq!(a.estado_skill(false, &None, skill), SkillState::SinAgente);
    assert_eq!(a.estado_skill(true, &None, skill), SkillState::Falta);
    assert_eq!(a.estado_skill(true, &Some("viejo".into()), skill), SkillState::Viejo);
    assert_eq!(a.estado_skill(true, &Some(skill.into()), skill), SkillState::AlDia);
    assert_eq!(a.estado_mcp(true, McpState::NoRegistrado), McpState::NoAplica);
    let roto = mcp_status(Some("/opt/homebrew/Cellar/xtal/0.1/bin/xtal".into()), false);
    assert_eq!(roto.clave(), "roto");
    let e = Estado { agente: a, presente: true, skill: SkillState::AlDia, skill_path: None, mcp: roto };
    assert!(!e.listo());
    assert_eq!(
        e.falta().as_deref(),
        Some("el MCP apunta a /opt/homebrew/Cellar/xtal/0.1/bin/xtal y ahí no hay nada")
    );
    let sano = Estado {
        agente: buscar("opencode", vec![]).unwrap(),
        presente: false,
        skill: SkillState::SinAgente,
        skill_path: None,
        mcp: mcp_status(None, false),
    };
    assert!(sano.listo());
    assert_eq!(sano.falta(), None);
    assert_eq!(SkillState::AlDia.clave(), "al_dia");
}

#[test]
fn elegir_dice_a_cuales() {
    let lista = todos(vec![]);
    let uno = elegir(Some("opencode".into()), false, lista, vec![]).unwrap();
    assert_eq!(uno.len(), 1);
    assert_eq!(uno[0].id, "opencode");
    let err = elegir(Some("otro".into()), false, todos(vec![]), vec![]).unwrap_err();
    assert_eq!(err, "no conozco el agente 'otro'. Los que hay: codex, copilot, opencode");
    assert!(elegir(None, true, todos(vec![]), vec![]).is_err());
    assert_eq!(elegir(None, false, todos(vec![]), vec![]).unwrap_err(), "decí a cuál: `--agent <id>` o `--all`");
}

#[test]
fn un_agente_esta_si_esta_su_carpeta_o_su_comando() {
    let a = Agente {
        id: "x".into(),
        label: "X".into(),
        dir: Ubicacion::Absoluta("/opt/x".into()),
        bin: Some("xcmd".into()),
        skills: None,
        mcp: Some(McpClientArg::Codex),
        propio: false,
    };
    let nada = |_: &str| false;
    let carpeta = |p: &str| p == "/opt/x";
    let comando = |b: &str| b == "xcmd";
    assert!(!a.presente(&nada, &nada));
    assert!(a.presente(&carpeta, &nada));
    assert!(a.presente(&nada, &comando));
    let mut b = a.clone();
    b.id = "y".into();
    b.dir = Ubicacion::Absoluta("/opt/y".into());
    b.bin = None;
    let ids: Vec<String> = presentes(vec![a.clone(), b.clone()], &carpeta, &nada).into_iter().map(|a| a.id).collect();
    assert_eq!(ids, vec!["x".to_string()]);
    assert_eq!(a.instalar_mcp(|_| Ok(())), Ok(true));
    assert_eq!(a.instalar_mcp(|_| Err("no".to_string())), Err("no".to_string()));
    b.mcp = None;
    assert_eq!(b.instalar_mcp(|_| Err("no".to_string())), Ok(false));
}

fn fila(id: &str, skills: &str) -> AgentePropio {
    AgentePropio { id: id.to_string(), label: id.to_string(), skills: skills.to_string(), bin: None }
}

#[test]
fn agregar_y_sacar_un_agente_propio() {
    let lista = vec![fila("uno", "~/.uno/skills"), fila("dos", "~/.dos/skills")];
    let lista = agregar_propio(lista, fila("uno", "~/.otro/skills"));
    let ids: Vec<&str> = lista.iter().map(|p| p.id.as_str()).collect();
    assert_eq!(ids, vec!["uno", "dos"]);
    assert_eq!(lista[0].skills, "~/.otro/skills");
    let lista = agregar_propio(lista, fila("tres", "~/.tres/skills"));
    assert!(es_propio(&lista, "tres"));
    let lista = sacar_propio(lista, "uno");
    let ids: Vec<&str> = lista.iter().map(|p| p.id.as_str()).collect();
    assert_eq!(ids, vec!["dos", "tres"]);
    assert!(!es_propio(&lista, "uno"));
}
