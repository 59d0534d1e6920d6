use xtal::deps::{
    detect_pkg_mgr, indicaciones_manuales, install_cmd, instalar_por_defecto, mgrs_linux,
    ngspice_pkgs, tectonic_pkgs, texlive_pkgs, DepKind, PkgMgr, Sistema,
};

#[test]
fn brew_no_pide_sudo_y_los_de_linux_si() {
    let (cmd, args) = install_cmd(PkgMgr::Brew, "ngspice");
    assert_eq!(cmd, "brew");
    assert_eq!(args, vec!["install", "ngspice"]);
    for mgr in [PkgMgr::Apt, PkgMgr::Dnf, PkgMgr::Pacman] {
        let (cmd, args) = install_cmd(mgr, "ngspice");
        assert_eq!(cmd, "sudo", "{mgr:?} debería pedir sudo");
        assert!(args.contains(&"ngspice".to_string()));
    }
}

#[test]
fn los_paquetes_de_windows_son_los_verificados() {
    assert_eq!(tectonic_pkgs().winget, None);
    assert_eq!(tectonic_pkgs().scoop, Some("tectonic"));
    assert_eq!(ngspice_pkgs().winget, None);
    assert_eq!(texlive_pkgs().winget, Some("MiKTeX.MiKTeX"));
}

#[test]
fn scoop_agrega_el_bucket_de_ngspice() {
    let (cmd, args) = install_cmd(PkgMgr::Scoop, "ngspice");
    assert_eq!(cmd, "powershell");
    assert!(args.last().unwrap().contains("bucket add extras"));
    let (cmd, args) = install_cmd(PkgMgr::Scoop, "tectonic");
    assert_eq!(cmd, "scoop");
    assert_eq!(args, vec!["install", "tectonic"]);
}

#[test]
fn winget_no_se_cuelga_pidiendo_confirmacion() {
    let (_, args) = install_cmd(PkgMgr::Winget, "MiKTeX.MiKTeX");
    assert!(args.contains(&"--accept-source-agreements".to_string()));
    assert!(args.contains(&"--accept-package-agreements".to_string()));
}

#[test]
fn en_linux_brew_se_prueba_antes_que_apt() {
    let mgrs_linux = mgrs_linux();
    assert_eq!(mgrs_linux[0].1, PkgMgr::Brew);
    assert_eq!(mgrs_linux[1].1, PkgMgr::Apt);
    assert_eq!(mgrs_linux[1].0, "apt-get");
}

#[test]
fn en_linux_hay_camino_para_las_tres_familias() {
    for pkgs in [ngspice_pkgs(), texlive_pkgs()] {
        assert!(pkgs.apt.is_some());
        assert!(pkgs.dnf.is_some());
        assert!(pkgs.pacman.is_some());
    }
    assert!(tectonic_pkgs().apt.is_none());
    assert!(tectonic_pkgs().dnf.is_some());
    assert!(tectonic_pkgs().pacman.is_some());
    assert!(tectonic_pkgs().brew.is_some());
}

#[test]
fn tectonic_no_tiene_paquete_en_apt() {
    assert!(tectonic_pkgs().apt.is_none());
    assert_eq!(tectonic_pkgs().for_mgr(PkgMgr::Brew).as_deref(), Some("tectonic"));
    assert_eq!(tectonic_pkgs().for_mgr(PkgMgr::Apt), None);
}

#[test]
fn se_queda_con_el_primero_que_encuentra() {
    assert_eq!(detect_pkg_mgr(Sistema::Linux, |b: &str| b == "apt-get" || b == "dnf"), Some(PkgMgr::Apt));
    assert_eq!(detect_pkg_mgr(Sistema::Linux, |b: &str| b == "brew" || b == "apt-get"), Some(PkgMgr::Brew));
    assert_eq!(detect_pkg_mgr(Sistema::Windows, |b: &str| b == "choco" || b == "winget"), Some(PkgMgr::Winget));
    assert_eq!(detect_pkg_mgr(Sistema::MacOs, |b: &str| b == "apt-get"), None);
    assert_eq!(detect_pkg_mgr(Sistema::Windows, |_: &str| false), None);
}

#[test]
fn las_indicaciones_a_mano_dependen_del_sistema() {
    let t = indicaciones_manuales("tectonic", &tectonic_pkgs(), Sistema::Linux);
    assert_eq!(t.len(), 4);
    assert_eq!(t[1].texto, "brew install tectonic");
    assert!(t[2].tenue);
    let w = indicaciones_manuales("ngspice", &ngspice_pkgs(), Sistema::Windows);
    let textos: Vec<&str> = w.iter().map(|i| i.texto.as_str()).collect();
    assert_eq!(
        textos,
        vec![
            "(sin scoop: iwr -useb get.scoop.sh | iex)",
            "scoop bucket add extras; scoop install ngspice",
            "choco install ngspice"
        ]
    );
    let l = indicaciones_manuales("pdflatex", &texlive_pkgs(), Sistema::Linux);
    let textos: Vec<&str> = l.iter().map(|i| i.texto.as_str()).collect();
    assert_eq!(
        textos,
        vec![
            "brew install texlive",
            "sudo apt-get install texlive-latex-extra",
            "sudo dnf install texlive-scheme-medium",
            "sudo pacman -S texlive-core"
        ]
    );
    let m = indicaciones_manuales("ngspice", &ngspice_pkgs(), Sistema::MacOs);
    assert_eq!(m.len(), 2);
    assert!(instalar_por_defecto(DepKind::Core));
    assert!(!instalar_por_defecto(DepKind::Optional));
}
