use bevy_integrator::recorder::{insert_statement, table_definition};
use bevy_integrator::{IntegratorError, Solver};

#[test]
fn every_scheme_is_selected_by_its_name() {
    assert_eq!(Solver::from_name("Euler"), Ok(Solver::Euler));
    assert_eq!(Solver::from_name("Heun"), Ok(Solver::Heun));
    assert_eq!(Solver::from_name("Midpoint"), Ok(Solver::Midpoint));
    assert_eq!(Solver::from_name("RK4"), Ok(Solver::RK4));
}

#[test]
fn an_unknown_name_is_an_unrecognized_solver() {
    for name in ["", "euler", "RK45", "RK", "Heun ", "Verlet", "Mıdpoint", "Eulex"] {
        assert_eq!(Solver::from_name(name), Err(IntegratorError::UnrecognizedSolver));
    }
}

#[test]
fn table_definition_without_entities() {
    assert_eq!(table_definition(&Vec::new()), "CREATE TABLE IF NOT EXISTS data (time REAL)");
}

#[test]
fn table_definition_has_two_columns_for_each_name() {
    let names = vec!["cube".to_string(), "arm".to_string()];
    assert_eq!(
        table_definition(&names),
        "CREATE TABLE IF NOT EXISTS data (time REAL, cube_state REAL, cube_dstate REAL, \
         arm_state REAL, arm_dstate REAL)"
    );
}

#[test]
fn insert_statement_without_entities() {
    assert_eq!(insert_statement(&Vec::new()), "INSERT INTO data (time) VALUES (?)");
}

#[test]
fn insert_statement_has_two_placeholders_for_each_name() {
    let names = vec!["cube".to_string(), "arm".to_string()];
    assert_eq!(
        insert_statement(&names),
        "INSERT INTO data (time, cube_state, cube_dstate, arm_state, arm_dstate) \
         VALUES (?, ?, ?, ?, ?)"
    );
}
