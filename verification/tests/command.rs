use hraw::command::{run, Accumulate, Args, Convert, Info, SubCommands, Task};

#[test]
fn run_makes_one_task_per_input() {
    let args = Args { command: SubCommands::Info(Info { input: vec!["a.hraw".into(), "b".into()] }) };
    let tasks = run(&args);
    assert_eq!(tasks.len(), 2);
    assert!(matches!(&tasks[1], Task::Info { path } if path == "b"));

    let args = Args {
        command: SubCommands::Convert(Convert { input: vec!["x".into()], output: "out.hraw".into(), fixedpoint: 100 }),
    };
    let tasks = run(&args);
    assert!(matches!(&tasks[0], Task::Convert { path, output, fixedpoint: 100 } if path == "x" && output == "out.hraw"));

    let args = Args { command: SubCommands::Accumulate(Accumulate { input: vec!["1".into(), "2".into(), "3".into()], script: "s".into() }) };
    let tasks = run(&args);
    assert_eq!(tasks.len(), 3);
    assert!(tasks.iter().all(|t| matches!(t, Task::Unimplemented)));

    let args = Args { command: SubCommands::Info(Info { input: vec![] }) };
    assert!(run(&args).is_empty());
}

#[test]
fn converted_header_text() {
    let text = hraw::command::converted_header(640, 480, 100);
    let expect = "width : 640\nheight : 480\nbitfield : unknown # le_f32\ndata :\n  - single_float.raw\n  - ave_float.raw\n  - dev_float.raw\ndecoder :\n  lang : lua\n  code : |\n    function main(index)\n      local i = index * 4\n      local buf = buffer.create(4)\n      buffer.writeu8(buf, 0, rawbytes[i + 0])\n      buffer.writeu8(buf, 1, rawbytes[i + 1])\n      buffer.writeu8(buf, 2, rawbytes[i + 2])\n      buffer.writeu8(buf, 3, rawbytes[i + 3])\n      return buffer.readf32(buf, 0) * 100\n    end\n";
    assert_eq!(text, expect);
    assert!(hraw::command::converted_header(0, 7, 1).starts_with("width : 0\nheight : 7\n"));
    assert!(hraw::command::converted_header(usize::MAX, 10, 0).starts_with(&format!("width : {}\nheight : 10\n", usize::MAX)));
}

#[test]
fn converted_header_reads_back_through_main() {
    let text = hraw::command::converted_header(3, 1, 100);
    let (name, value) = hraw::header_value(0, &text).unwrap();
    assert_eq!(name, "header.yaml");
    assert_eq!(value["width"], 3);
    assert_eq!(value["height"], 1);
    assert_eq!(value["bitfield"], "unknown");
    assert_eq!(value["data"][0], "single_float.raw");
    assert_eq!(value["data"][1], "ave_float.raw");
    assert_eq!(value["data"][2], "dev_float.raw");
    assert_eq!(value["decoder"]["lang"], "lua");
    let code = value["decoder"]["code"].as_str().unwrap();

    let samples: [f32; 3] = [1.5, -2.25, 1234.0];
    let bytes: Vec<u8> = samples.iter().flat_map(|f| f.to_le_bytes()).collect();
    let lua = mlua::Lua::new();
    let table = lua.create_table().unwrap();
    for (i, b) in bytes.iter().enumerate() {
        table.set(i, *b).unwrap();
    }
    lua.globals().set("rawbytes", table).unwrap();
    lua.load(code).exec().unwrap();
    let main: mlua::Function = lua.globals().get("main").unwrap();
    let read: Vec<i32> = (0..3).map(|i| main.call::<_, i32>(i).unwrap()).collect();
    assert_eq!(read, vec![150, -225, 123400]);
}
