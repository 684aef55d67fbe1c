use mdx_desktop::error::AppError;
use mdx_desktop::state::finish_save;
use mdx_desktop::state::AppConfig;
use mdx_desktop::state::AppState;
use mdx_desktop::state::LoadOutcome;
use mdx_desktop::state::SaveOutcome;
use mdx_desktop::state::SaveRequest;

/// The configuration files that were written, by path.
struct Files {
    written: Vec<(String, AppConfig)>,
}

impl Files {
    fn new() -> Files {
        Files { written: Vec::new() }
    }

    fn save(&mut self, request: SaveRequest) -> Result<(), AppError> {
        self.written.retain(|(path, _)| *path != request.path);
        self.written.push((request.path, request.config));
        finish_save(SaveOutcome::Saved)
    }

    fn read(&self, path: &str) -> LoadOutcome {
        for (name, config) in &self.written {
            if name == path {
                return LoadOutcome::Loaded(config.clone());
            }
        }
        LoadOutcome::Missing
    }

    fn load(&self, state: &mut AppState) -> Result<(), AppError> {
        let found = self.read(state.config_path());
        state.load(found)
    }
}

const CONFIG: &str = "/tmp/mdx_state_test.json";

#[test]
fn test_new_state_has_no_workspace() {
    let state = AppState::new(CONFIG.to_string());
    assert!(state.get_workspace().is_none());
}

#[test]
fn test_set_and_get_workspace() {
    let mut files = Files::new();
    let mut state = AppState::new(CONFIG.to_string());
    let workspace = "/home/user/my-notes".to_string();
    files.save(state.set_workspace(workspace.clone())).unwrap();
    assert_eq!(state.get_workspace(), Some(workspace));
}

#[test]
fn mod_test_clear_workspace() {
    let mut files = Files::new();
    let mut state = AppState::new(CONFIG.to_string());
    let workspace = "/home/user/my-notes".to_string();
    files.save(state.set_workspace(workspace)).unwrap();
    files.save(state.clear_workspace()).unwrap();
    assert!(state.get_workspace().is_none());
}

#[test]
fn test_persistence_across_instances() {
    let mut files = Files::new();
    {
        let mut state1 = AppState::new(CONFIG.to_string());
        let workspace = "/home/user/my-notes".to_string();
        files.save(state1.set_workspace(workspace)).unwrap();
    }
    {
        let mut state2 = AppState::new(CONFIG.to_string());
        files.load(&mut state2).unwrap();
        assert_eq!(state2.get_workspace(), Some("/home/user/my-notes".to_string()));
    }
}

#[test]
fn test_last_dialog_dir() {
    let mut files = Files::new();
    let mut state = AppState::new(CONFIG.to_string());
    let dir = "/home/user/documents".to_string();
    files.save(state.set_last_dialog_dir(dir.clone())).unwrap();
    assert_eq!(state.get_last_dialog_dir(), Some(dir));
}

#[test]
fn test_set_workspace_updates_last_dialog_dir() {
    let mut files = Files::new();
    let mut state = AppState::new(CONFIG.to_string());
    let workspace = "/home/user/my-notes".to_string();
    files.save(state.set_workspace(workspace.clone())).unwrap();
    assert_eq!(state.get_last_dialog_dir(), Some(workspace));
}

#[test]
fn test_load_nonexistent_config_uses_defaults() {
    let files = Files::new();
    let mut state = AppState::new(CONFIG.to_string());
    assert!(files.load(&mut state).is_ok());
    assert!(state.get_workspace().is_none());
}

#[test]
fn test_get_workspace() {
    let mut files = Files::new();
    let mut state = AppState::new("/tmp/mdx_cmd_test_config.json".to_string());
    let workspace = "/tmp/mdx_cmd_test_workspace".to_string();
    files.save(state.set_workspace(workspace.clone())).unwrap();
    let workspace_path = state.get_workspace();
    assert!(workspace_path.is_some());
    assert_eq!(workspace_path.unwrap(), workspace);
}

#[test]
fn commands_test_test_clear_workspace() {
    let mut files = Files::new();
    let mut state = AppState::new("/tmp/mdx_cmd_test_config.json".to_string());
    files.save(state.set_workspace("/tmp/mdx_cmd_test_workspace".to_string())).unwrap();
    let result = files.save(state.clear_workspace());
    assert!(result.is_ok());
    assert!(state.get_workspace().is_none());
}

#[test]
fn test_workspace_persistence() {
    let mut files = Files::new();
    let workspace = "/tmp/mdx_cmd_test_workspace_1".to_string();
    let config_path = "/tmp/mdx_cmd_test_config_1.json".to_string();
    {
        let mut state1 = AppState::new(config_path.clone());
        files.save(state1.set_workspace(workspace.clone())).unwrap();
    }
    {
        let mut state2 = AppState::new(config_path.clone());
        files.load(&mut state2).unwrap();
        assert_eq!(state2.get_workspace(), Some(workspace.clone()));
    }
}

#[test]
fn test_last_dialog_dir_persistence() {
    let mut files = Files::new();
    let config_path = "/tmp/mdx_cmd_test_config_2.json".to_string();
    let test_dir = "/home/user/documents".to_string();
    {
        let mut state1 = AppState::new(config_path.clone());
        files.save(state1.set_last_dialog_dir(test_dir.clone())).unwrap();
    }
    {
        let mut state2 = AppState::new(config_path.clone());
        files.load(&mut state2).unwrap();
        assert_eq!(state2.get_last_dialog_dir(), Some(test_dir));
    }
}

#[test]
fn default_config_is_empty() {
    let config = AppConfig::default();
    assert!(config.workspace_dir.is_none());
    assert!(config.last_dialog_dir.is_none());
    let state = AppState::new(CONFIG.to_string());
    let held = state.get_config();
    assert!(held.workspace_dir.is_none());
    assert!(held.last_dialog_dir.is_none());
    assert_eq!(state.config_path(), CONFIG);
}

#[test]
fn closing_the_workspace_keeps_the_dialog_directory() {
    let mut state = AppState::new(CONFIG.to_string());
    let _ = state.set_workspace("/home/user/my-notes".to_string());
    let request = state.clear_workspace();
    assert_eq!(state.get_workspace(), None);
    assert_eq!(state.get_last_dialog_dir(), Some("/home/user/my-notes".to_string()));
    assert_eq!(request.config.workspace_dir, None);
    assert_eq!(request.config.last_dialog_dir, Some("/home/user/my-notes".to_string()));
}

#[test]
fn dialog_directory_does_not_touch_the_workspace() {
    let mut state = AppState::new(CONFIG.to_string());
    let _ = state.set_workspace("/ws".to_string());
    let _ = state.set_last_dialog_dir("/elsewhere".to_string());
    assert_eq!(state.get_workspace(), Some("/ws".to_string()));
    assert_eq!(state.get_last_dialog_dir(), Some("/elsewhere".to_string()));
}

#[test]
fn save_request_names_file_directory_and_whole_config() {
    let mut state = AppState::new("/home/user/.config/mdx/config.json".to_string());
    let request = state.set_workspace("/ws".to_string());
    assert_eq!(request.path, "/home/user/.config/mdx/config.json");
    assert_eq!(request.directory, Some("/home/user/.config/mdx".to_string()));
    assert_eq!(request.config.workspace_dir, Some("/ws".to_string()));
    assert_eq!(request.config.last_dialog_dir, Some("/ws".to_string()));
    let again = state.save();
    assert_eq!(again.path, request.path);
    assert_eq!(again.config.workspace_dir, Some("/ws".to_string()));
    let bare = AppState::new("config.json".to_string()).save();
    assert_eq!(bare.directory, Some(String::new()));
}

#[test]
fn failed_saves_are_io_errors() {
    match finish_save(SaveOutcome::DirectoryFailed("denied".to_string())) {
        Err(AppError::IoError(m)) => assert_eq!(m, "Failed to create config directory: denied"),
        other => panic!("unexpected result: {:?}", other),
    }
    match finish_save(SaveOutcome::SerializeFailed("bad".to_string())) {
        Err(AppError::IoError(m)) => assert_eq!(m, "Failed to serialize config: bad"),
        other => panic!("unexpected result: {:?}", other),
    }
    match finish_save(SaveOutcome::WriteFailed("full".to_string())) {
        Err(AppError::IoError(m)) => assert_eq!(m, "Failed to write config file: full"),
        other => panic!("unexpected result: {:?}", other),
    }
    assert!(finish_save(SaveOutcome::Saved).is_ok());
}

#[test]
fn failed_save_leaves_memory_changed() {
    let mut state = AppState::new(CONFIG.to_string());
    let _request = state.set_workspace("/ws".to_string());
    let result = finish_save(SaveOutcome::WriteFailed("disk full".to_string()));
    assert!(result.is_err());
    assert_eq!(state.get_workspace(), Some("/ws".to_string()));
}

#[test]
fn malformed_config_is_an_error_and_changes_nothing() {
    let mut state = AppState::new(CONFIG.to_string());
    let _ = state.set_workspace("/ws".to_string());
    match state.load(LoadOutcome::Malformed("expected value at line 1 column 1".to_string())) {
        Err(AppError::IoError(m)) => {
            assert_eq!(m, "Failed to parse config file: expected value at line 1 column 1");
        },
        other => panic!("unexpected result: {:?}", other),
    }
    assert_eq!(state.get_workspace(), Some("/ws".to_string()));
    match state.load(LoadOutcome::Unreadable("denied".to_string())) {
        Err(AppError::IoError(m)) => assert_eq!(m, "Failed to read config file: denied"),
        other => panic!("unexpected result: {:?}", other),
    }
    assert_eq!(state.get_workspace(), Some("/ws".to_string()));
}

#[test]
fn loaded_config_replaces_the_one_in_memory() {
    let mut state = AppState::new(CONFIG.to_string());
    let _ = state.set_workspace("/old".to_string());
    let found = AppConfig { workspace_dir: None, last_dialog_dir: Some("/d".to_string()) };
    assert!(state.load(LoadOutcome::Loaded(found)).is_ok());
    assert_eq!(state.get_workspace(), None);
    assert_eq!(state.get_last_dialog_dir(), Some("/d".to_string()));
    assert_eq!(state.config_path(), CONFIG);
}
