//! Decisions and command lines of the macOS packaging tasks: the icon set
//! slots, whether device assets are bundled, the signing order of the app and
//! its login-item helper, and the arguments handed to `codesign` and
//! `create-dmg`.

use vstd::prelude::*;
use crate::text::{decimal, digits_value, lemma_decimal_reads_back, opt_text, push_decimal, trim, trim_spec, is_trim_of, lemma_trim_is_trim};

verus! {

/// Name given in the Trash to a packaging item without a usable file name.
pub const TRASH_FALLBACK_NAME: &'static str = "NativeLogi-item";

/// The point sizes of the icon set, each rendered at 1x and 2x.
pub open spec fn icon_base_sizes() -> Seq<u16> {
    seq![16u16, 32u16, 128u16, 256u16, 512u16]
}

/// `icon_{s}x{s}` for a point size `s`.
pub open spec fn icon_stem(size: nat) -> Seq<char> {
    seq!['i', 'c', 'o', 'n', '_'] + decimal(size) + seq!['x'] + decimal(size)
}

/// The file of the 1x slot of point size `size`.
pub open spec fn icon_name_1x(size: nat) -> Seq<char> {
    icon_stem(size) + seq!['.', 'p', 'n', 'g']
}

/// The file of the 2x slot of point size `size`.
pub open spec fn icon_name_2x(size: nat) -> Seq<char> {
    icon_stem(size) + seq!['@', '2', 'x', '.', 'p', 'n', 'g']
}

/// The iconset slots as (pixel size, file name), in rendering order: for each
/// point size, its 1x slot and then its 2x slot at twice the pixels.
pub open spec fn iconset_slots_spec() -> Seq<(u16, Seq<char>)> {
    Seq::new(
        10,
        |i: int|
            {
                let size = icon_base_sizes()[i / 2];
                if i % 2 == 0 {
                    (size, icon_name_1x(size as nat))
                } else {
                    ((2 * size) as u16, icon_name_2x(size as nat))
                }
            },
    )
}

/// The views of a list of (size, name) pairs.
pub open spec fn slot_texts(v: Seq<(u16, String)>) -> Seq<(u16, Seq<char>)> {
    v.map_values(|p: (u16, String)| (p.0, p.1@))
}

fn icon_name(size: u16, double: bool) -> (res: String)
    ensures
        res@ == (if double {
            icon_name_2x(size as nat)
        } else {
            icon_name_1x(size as nat)
        }),
{
    let mut out = String::new();
    out.push_str("icon_");
    push_decimal(&mut out, size as u64);
    out.push('x');
    push_decimal(&mut out, size as u64);
    if double {
        out.push_str("@2x.png");
    } else {
        out.push_str(".png");
    }
    proof {
        reveal_strlit("icon_");
        reveal_strlit("@2x.png");
        reveal_strlit(".png");
    }
    assert(out@ =~= (if double {
        icon_name_2x(size as nat)
    } else {
        icon_name_1x(size as nat)
    }));
    out
}

/// The slots of the macOS iconset: `icon_{s}x{s}.png` at `s` pixels and
/// `icon_{s}x{s}@2x.png` at `2s` pixels, for `s` in 16, 32, 128, 256, 512.
pub fn iconset_slots() -> (res: Vec<(u16, String)>)
    ensures
        slot_texts(res@) == iconset_slots_spec(),
        covers_iconset(slot_texts(res@)),
{
    let sizes: [u16; 5] = [16, 32, 128, 256, 512];
    let mut res: Vec<(u16, String)> = Vec::new();
    let mut k: usize = 0;
    assert(sizes@ =~= icon_base_sizes());
    while k < 5
        invariant
            k <= 5,
            sizes@ == icon_base_sizes(),
            slot_texts(res@) =~= iconset_slots_spec().take(2 * k as int),
        decreases 5 - k,
    {
        let size: u16 = sizes[k];
        assert(size <= 512);
        let one = icon_name(size, false);
        let two = icon_name(size, true);
        let ghost before = res@;
        res.push((size, one));
        res.push((size * 2, two));
        assert(res@ =~= before.push((size, one)).push(((size * 2) as u16, two)));
        assert(slot_texts(res@) =~= slot_texts(before).push((size, one@)).push(
            ((size * 2) as u16, two@),
        ));
        assert(iconset_slots_spec()[2 * k as int] == (size, icon_name_1x(size as nat)));
        assert(iconset_slots_spec()[2 * k + 1] == ((2 * size) as u16, icon_name_2x(size as nat)));
        k = k + 1;
    }
    assert(iconset_slots_spec().take(10) =~= iconset_slots_spec());
    proof {
        lemma_iconset_slots();
    }
    res
}

/// True when `value` is the text "1".
pub open spec fn is_one(value: Option<Seq<char>>) -> bool {
    value == Some(seq!['1'])
}

fn equals_one(value: Option<&str>) -> (res: bool)
    ensures
        res == is_one(opt_text(value)),
{
    match value {
        Some(v) => {
            if v.unicode_len() == 1 {
                let c = v.get_char(0);
                assert(c == '1' ==> v@ =~= seq!['1']);
                c == '1'
            } else {
                false
            }
        },
        None => false,
    }
}

/// Device assets are bundled into the app (offline build) exactly when
/// `OPENLOGI_BUNDLE_ASSETS` or `NATIVELOGI_BUNDLE_ASSETS` is "1"; otherwise
/// they are fetched on demand at first launch.
pub fn bundle_assets_requested(openlogi: Option<&str>, nativelogi: Option<&str>) -> (res: bool)
    ensures
        res == (is_one(opt_text(openlogi)) || is_one(opt_text(nativelogi))),
        res == (opt_text(openlogi) == Some(seq!['1']) || opt_text(nativelogi) == Some(seq!['1'])),
{
    equals_one(openlogi) || equals_one(nativelogi)
}

/// The bundles that take part in signing the app.
#[derive(Debug, Clone, Copy, PartialEq, Eq, Structural)]
pub enum Bundle {
    /// `NativeLogi.app/Contents/Library/LoginItems/NativeLogiAgent.app`.
    Helper,
    /// `NativeLogi.app`.
    App,
}

/// One `codesign` invocation while signing the app.
#[derive(Debug, Clone, Copy, PartialEq, Eq, Structural)]
pub enum SignStep {
    /// Sign with the hardened runtime and a secure timestamp.
    Sign(Bundle),
    /// `codesign --verify --strict`.
    Verify(Bundle),
}

/// Inside-out signing: the nested helper is sealed first with its own
/// signature, then the outer app; then the app is verified, then the helper.
/// The helper's steps exist only when the helper is in the bundle.
pub open spec fn sign_app_plan_spec(helper_exists: bool) -> Seq<SignStep> {
    if helper_exists {
        seq![
            SignStep::Sign(Bundle::Helper),
            SignStep::Sign(Bundle::App),
            SignStep::Verify(Bundle::App),
            SignStep::Verify(Bundle::Helper),
        ]
    } else {
        seq![SignStep::Sign(Bundle::App), SignStep::Verify(Bundle::App)]
    }
}

/// The order of the `codesign` calls that sign the app bundle.
pub fn sign_app_plan(helper_exists: bool) -> (res: Vec<SignStep>)
    ensures
        res@ == sign_app_plan_spec(helper_exists),
        signs_inside_out(res@, helper_exists),
{
    let mut steps: Vec<SignStep> = Vec::new();
    if helper_exists {
        steps.push(SignStep::Sign(Bundle::Helper));
    }
    steps.push(SignStep::Sign(Bundle::App));
    steps.push(SignStep::Verify(Bundle::App));
    if helper_exists {
        steps.push(SignStep::Verify(Bundle::Helper));
    }
    assert(steps@ =~= sign_app_plan_spec(helper_exists));
    proof {
        lemma_sign_app_plan(helper_exists);
    }
    steps
}

/// The texts of a list of arguments.
pub open spec fn arg_texts(v: Seq<String>) -> Seq<Seq<char>> {
    v.map_values(|a: String| a@)
}

fn push_arg(args: &mut Vec<String>, arg: &str)
    ensures
        arg_texts(final(args)@) == arg_texts(old(args)@).push(arg@),
{
    args.push(arg.to_owned());
    assert(arg_texts(args@) =~= arg_texts(old(args)@).push(arg@));
}

/// Arguments of `codesign` that sign `target` with the hardened runtime and
/// a secure timestamp.
pub open spec fn codesign_runtime_args_spec(identity: Seq<char>, target: Seq<char>) -> Seq<Seq<char>> {
    seq!["--force"@, "--options"@, "runtime"@, "--timestamp"@, "--sign"@, identity, target]
}

/// Builds the `codesign` arguments that sign one bundle with the hardened
/// runtime and a secure timestamp.
pub fn codesign_runtime_args(identity: &str, target: &str) -> (res: Vec<String>)
    ensures
        arg_texts(res@) == codesign_runtime_args_spec(identity@, target@),
        signs_with_runtime(arg_texts(res@), identity@, target@),
{
    let mut args: Vec<String> = Vec::new();
    push_arg(&mut args, "--force");
    push_arg(&mut args, "--options");
    push_arg(&mut args, "runtime");
    push_arg(&mut args, "--timestamp");
    push_arg(&mut args, "--sign");
    push_arg(&mut args, identity);
    push_arg(&mut args, target);
    assert(arg_texts(args@) =~= codesign_runtime_args_spec(identity@, target@));
    args
}

/// Arguments of `codesign` that strictly verify the signature of `target`.
pub open spec fn codesign_verify_strict_args_spec(target: Seq<char>) -> Seq<Seq<char>> {
    seq!["--verify"@, "--strict"@, target]
}

/// Builds the `codesign --verify --strict` arguments for one bundle.
pub fn codesign_verify_strict_args(target: &str) -> (res: Vec<String>)
    ensures
        arg_texts(res@) == codesign_verify_strict_args_spec(target@),
        verifies_strictly(arg_texts(res@), target@),
{
    let mut args: Vec<String> = Vec::new();
    push_arg(&mut args, "--verify");
    push_arg(&mut args, "--strict");
    push_arg(&mut args, target);
    assert(arg_texts(args@) =~= codesign_verify_strict_args_spec(target@));
    args
}

/// Arguments of `codesign` that sign the disk image `dmg`.
pub open spec fn sign_dmg_args_spec(identity: Seq<char>, dmg: Seq<char>) -> Seq<Seq<char>> {
    seq!["--force"@, "--timestamp"@, "--sign"@, identity, dmg]
}

/// Builds the `codesign` arguments that sign the disk image with a secure
/// timestamp (no hardened runtime: it is not code).
pub fn sign_dmg_args(identity: &str, dmg: &str) -> (res: Vec<String>)
    ensures
        arg_texts(res@) == sign_dmg_args_spec(identity@, dmg@),
        signs_image(arg_texts(res@), identity@, dmg@),
{
    let mut args: Vec<String> = Vec::new();
    push_arg(&mut args, "--force");
    push_arg(&mut args, "--timestamp");
    push_arg(&mut args, "--sign");
    push_arg(&mut args, identity);
    push_arg(&mut args, dmg);
    assert(arg_texts(args@) =~= sign_dmg_args_spec(identity@, dmg@));
    args
}

/// Arguments of `codesign` that verify the signed disk image verbosely.
pub open spec fn verify_dmg_args_spec(dmg: Seq<char>) -> Seq<Seq<char>> {
    seq!["--verify"@, "--verbose=2"@, dmg]
}

/// Builds the `codesign --verify --verbose=2` arguments for the disk image.
pub fn verify_dmg_args(dmg: &str) -> (res: Vec<String>)
    ensures
        arg_texts(res@) == verify_dmg_args_spec(dmg@),
        verifies_image(arg_texts(res@), dmg@),
{
    let mut args: Vec<String> = Vec::new();
    push_arg(&mut args, "--verify");
    push_arg(&mut args, "--verbose=2");
    push_arg(&mut args, dmg);
    assert(arg_texts(args@) =~= verify_dmg_args_spec(dmg@));
    args
}

/// The window and icon layout of the disk image, before the background.
/// The geometry is locked to the painted 760x480 background: the outer
/// window is 32 points taller for the Finder title bar, and icon positions
/// are relative to the content area.
pub open spec fn dmg_layout_args() -> Seq<Seq<char>> {
    seq![
        "--volname"@,
        "NativeLogi"@,
        "--window-pos"@,
        "240"@,
        "120"@,
        "--window-size"@,
        "760"@,
        "512"@,
        "--icon-size"@,
        "128"@,
    ]
}

/// The icon placement of the app and of the Applications drop link.
pub open spec fn dmg_icon_args() -> Seq<Seq<char>> {
    seq![
        "--icon"@,
        "NativeLogi.app"@,
        "212"@,
        "250"@,
        "--app-drop-link"@,
        "548"@,
        "250"@,
        "--hide-extension"@,
        "NativeLogi.app"@,
    ]
}

/// Arguments of `create-dmg` that package `app` into `output`, with the
/// branded background when one was fetched.
pub open spec fn create_dmg_args_spec(
    background: Option<Seq<char>>,
    output: Seq<char>,
    app: Seq<char>,
) -> Seq<Seq<char>> {
    let bg = match background {
        Some(b) => seq!["--background"@, b],
        None => Seq::empty(),
    };
    dmg_layout_args() + bg + dmg_icon_args() + seq![output, app]
}

/// Builds the `create-dmg` arguments.
pub fn create_dmg_args(background: Option<&str>, output: &str, app: &str) -> (res: Vec<String>)
    ensures
        arg_texts(res@) == create_dmg_args_spec(opt_text(background), output@, app@),
        packages_image(arg_texts(res@), opt_text(background), output@, app@),
{
    let mut args: Vec<String> = Vec::new();
    push_arg(&mut args, "--volname");
    push_arg(&mut args, "NativeLogi");
    push_arg(&mut args, "--window-pos");
    push_arg(&mut args, "240");
    push_arg(&mut args, "120");
    push_arg(&mut args, "--window-size");
    push_arg(&mut args, "760");
    push_arg(&mut args, "512");
    push_arg(&mut args, "--icon-size");
    push_arg(&mut args, "128");
    assert(arg_texts(args@) =~= dmg_layout_args());
    if let Some(b) = background {
        push_arg(&mut args, "--background");
        push_arg(&mut args, b);
    }
    let ghost mid = arg_texts(args@);
    push_arg(&mut args, "--icon");
    push_arg(&mut args, "NativeLogi.app");
    push_arg(&mut args, "212");
    push_arg(&mut args, "250");
    push_arg(&mut args, "--app-drop-link");
    push_arg(&mut args, "548");
    push_arg(&mut args, "250");
    push_arg(&mut args, "--hide-extension");
    push_arg(&mut args, "NativeLogi.app");
    assert(arg_texts(args@) =~= mid + dmg_icon_args());
    push_arg(&mut args, output);
    push_arg(&mut args, app);
    assert(arg_texts(args@) =~= create_dmg_args_spec(opt_text(background), output@, app@));
    proof {
        lemma_create_dmg_args(opt_text(background), output@, app@, None, output@, app@);
    }
    args
}


/// Arguments of `sips` that downscale the master icon to `size` pixels
/// square and write it to `output`.
pub open spec fn sips_args_spec(size: nat, master: Seq<char>, output: Seq<char>) -> Seq<Seq<char>> {
    seq!["-z"@, decimal(size), decimal(size), master, "--out"@, output]
}

fn decimal_string(n: u64) -> (res: String)
    ensures
        res@ == decimal(n as nat),
{
    let mut out = String::new();
    push_decimal(&mut out, n);
    assert(out@ =~= decimal(n as nat));
    out
}

fn push_owned_arg(args: &mut Vec<String>, arg: String)
    ensures
        arg_texts(final(args)@) == arg_texts(old(args)@).push(arg@),
{
    let ghost text = arg@;
    args.push(arg);
    assert(arg_texts(args@) =~= arg_texts(old(args)@).push(text));
}

/// Builds the `sips` arguments that render one iconset slot.
pub fn sips_args(size: u16, master: &str, output: &str) -> (res: Vec<String>)
    ensures
        arg_texts(res@) == sips_args_spec(size as nat, master@, output@),
        downscales_icon(arg_texts(res@), size as nat, master@, output@),
{
    let mut args: Vec<String> = Vec::new();
    push_arg(&mut args, "-z");
    push_owned_arg(&mut args, decimal_string(size as u64));
    push_owned_arg(&mut args, decimal_string(size as u64));
    push_arg(&mut args, master);
    push_arg(&mut args, "--out");
    push_arg(&mut args, output);
    assert(arg_texts(args@) =~= sips_args_spec(size as nat, master@, output@));
    proof {
        lemma_sips_args(size as nat, master@, output@);
    }
    args
}

/// Arguments of `iconutil` that turn the iconset into an `.icns` file.
pub open spec fn iconutil_args_spec(iconset: Seq<char>, output: Seq<char>) -> Seq<Seq<char>> {
    seq!["-c"@, "icns"@, iconset, "-o"@, output]
}

/// Builds the `iconutil` arguments.
pub fn iconutil_args(iconset: &str, output: &str) -> (res: Vec<String>)
    ensures
        arg_texts(res@) == iconutil_args_spec(iconset@, output@),
        builds_icns(arg_texts(res@), iconset@, output@),
{
    let mut args: Vec<String> = Vec::new();
    push_arg(&mut args, "-c");
    push_arg(&mut args, "icns");
    push_arg(&mut args, iconset);
    push_arg(&mut args, "-o");
    push_arg(&mut args, output);
    assert(arg_texts(args@) =~= iconutil_args_spec(iconset@, output@));
    args
}

/// Arguments of `curl` that fetch `url` into `dest`, failing on HTTP errors.
pub open spec fn curl_args_spec(url: Seq<char>, dest: Seq<char>) -> Seq<Seq<char>> {
    seq!["-fsSL"@, url, "-o"@, dest]
}

/// Builds the `curl` arguments that fetch the DMG background.
pub fn curl_args(url: &str, dest: &str) -> (res: Vec<String>)
    ensures
        arg_texts(res@) == curl_args_spec(url@, dest@),
        fetches(arg_texts(res@), url@, dest@),
{
    let mut args: Vec<String> = Vec::new();
    push_arg(&mut args, "-fsSL");
    push_arg(&mut args, url);
    push_arg(&mut args, "-o");
    push_arg(&mut args, dest);
    assert(arg_texts(args@) =~= curl_args_spec(url@, dest@));
    args
}

/// The cargo invocations of the bundling task.
#[derive(Debug, Clone, Copy, PartialEq, Eq, Structural)]
pub enum CargoTask {
    /// Download the device assets into the GUI crate (offline build).
    SyncAssets,
    /// Install `cargo-bundle`.
    InstallBundler,
    /// Build the `.app` bundle.
    Bundle,
    /// Build the headless agent.
    BuildAgent,
}

/// Arguments of `cargo` for each task.
pub open spec fn cargo_args_spec(task: CargoTask) -> Seq<Seq<char>> {
    match task {
        CargoTask::SyncAssets => seq![
            "run"@,
            "-p"@,
            "openlogi"@,
            "--release"@,
            "--"@,
            "assets"@,
            "sync"@,
        ],
        CargoTask::InstallBundler => seq!["install"@, "cargo-bundle"@, "--locked"@],
        CargoTask::Bundle => seq!["bundle"@, "--release"@],
        CargoTask::BuildAgent => seq!["build"@, "-p"@, "openlogi-agent"@, "--release"@],
    }
}

/// Builds the `cargo` arguments of a bundling task.
pub fn cargo_args(task: CargoTask) -> (res: Vec<String>)
    ensures
        arg_texts(res@) == cargo_args_spec(task),
{
    let mut args: Vec<String> = Vec::new();
    match task {
        CargoTask::SyncAssets => {
            push_arg(&mut args, "run");
            push_arg(&mut args, "-p");
            push_arg(&mut args, "openlogi");
            push_arg(&mut args, "--release");
            push_arg(&mut args, "--");
            push_arg(&mut args, "assets");
            push_arg(&mut args, "sync");
        },
        CargoTask::InstallBundler => {
            push_arg(&mut args, "install");
            push_arg(&mut args, "cargo-bundle");
            push_arg(&mut args, "--locked");
        },
        CargoTask::Bundle => {
            push_arg(&mut args, "bundle");
            push_arg(&mut args, "--release");
        },
        CargoTask::BuildAgent => {
            push_arg(&mut args, "build");
            push_arg(&mut args, "-p");
            push_arg(&mut args, "openlogi-agent");
            push_arg(&mut args, "--release");
        },
    }
    assert(arg_texts(args@) =~= cargo_args_spec(task));
    args
}

/// Arguments of `xcrun` that print the macOS SDK's path.
pub open spec fn xcrun_sdk_path_args_spec() -> Seq<Seq<char>> {
    seq!["--sdk"@, "macosx"@, "--show-sdk-path"@]
}

/// Builds the `xcrun` arguments that print the macOS SDK's path.
pub fn xcrun_sdk_path_args() -> (res: Vec<String>)
    ensures
        arg_texts(res@) == xcrun_sdk_path_args_spec(),
{
    let mut args: Vec<String> = Vec::new();
    push_arg(&mut args, "--sdk");
    push_arg(&mut args, "macosx");
    push_arg(&mut args, "--show-sdk-path");
    assert(arg_texts(args@) =~= xcrun_sdk_path_args_spec());
    args
}

/// The Xcode developer directory: `OPENLOGI_DEVELOPER_DIR` when it is set
/// (and valid Unicode), else the default Xcode location.
pub open spec fn developer_dir_spec(var: Option<Seq<char>>) -> Seq<char> {
    match var {
        Some(dir) => dir,
        None => "/Applications/Xcode.app/Contents/Developer"@,
    }
}

/// Returns the Xcode developer directory to use.
pub fn developer_dir(var: Option<&str>) -> (res: String)
    ensures
        res@ == developer_dir_spec(opt_text(var)),
        var matches Some(v) ==> res@ == v@,
        var is None ==> res@ == "/Applications/Xcode.app/Contents/Developer"@,
{
    match var {
        Some(dir) => dir.to_owned(),
        None => "/Applications/Xcode.app/Contents/Developer".to_owned(),
    }
}

/// The texts of a list of (name, value) pairs.
pub open spec fn pair_texts(v: Seq<(String, String)>) -> Seq<(Seq<char>, Seq<char>)> {
    v.map_values(|p: (String, String)| (p.0@, p.1@))
}

/// The environment of the Xcode tool runs: the developer directory, and the
/// SDK root printed by `xcrun` without surrounding white space.
pub open spec fn xcode_env_spec(developer_dir: Seq<char>, sdk_output: Seq<char>) -> Seq<
    (Seq<char>, Seq<char>),
> {
    seq![("DEVELOPER_DIR"@, developer_dir), ("SDKROOT"@, trim_spec(sdk_output))]
}

/// Builds the environment of the Xcode tool runs.
pub fn xcode_env(developer_dir: &str, sdk_output: &str) -> (res: Vec<(String, String)>)
    ensures
        pair_texts(res@) == xcode_env_spec(developer_dir@, sdk_output@),
        pair_texts(res@).len() == 2,
        pair_texts(res@)[0] == ("DEVELOPER_DIR"@, developer_dir@),
        pair_texts(res@)[1].0 == "SDKROOT"@,
        is_trim_of(pair_texts(res@)[1].1, sdk_output@),
{
    let mut env: Vec<(String, String)> = Vec::new();
    env.push(("DEVELOPER_DIR".to_owned(), developer_dir.to_owned()));
    env.push(("SDKROOT".to_owned(), trim(sdk_output)));
    assert(pair_texts(env@) =~= xcode_env_spec(developer_dir@, sdk_output@));
    proof {
        lemma_xcode_env(developer_dir@, sdk_output@);
    }
    env
}


/// The `codesign` arguments that sign `target` as `identity`: the fixed
/// flags `--force --options runtime --timestamp --sign`, then the identity,
/// then the target.
pub open spec fn signs_with_runtime(a: Seq<Seq<char>>, identity: Seq<char>, target: Seq<char>) -> bool {
    &&& a.len() == 7
    &&& a[0] == "--force"@
    &&& a[1] == "--options"@
    &&& a[2] == "runtime"@
    &&& a[3] == "--timestamp"@
    &&& a[4] == "--sign"@
    &&& a[5] == identity
    &&& a[6] == target
}

/// Every bundle is signed with the hardened runtime and a secure timestamp,
/// whatever the bundle and the identity: the flags before the identity are
/// the same for all of them.
pub proof fn lemma_codesign_runtime_args(
    identity: Seq<char>,
    target: Seq<char>,
    other_identity: Seq<char>,
    other_target: Seq<char>,
)
    ensures
        signs_with_runtime(codesign_runtime_args_spec(identity, target), identity, target),
        codesign_runtime_args_spec(identity, target).take(5) == codesign_runtime_args_spec(
            other_identity,
            other_target,
        ).take(5),
{
    assert(codesign_runtime_args_spec(identity, target).take(5) =~= codesign_runtime_args_spec(
        other_identity,
        other_target,
    ).take(5));
}

/// Bundling is switched on by the value "1" and by nothing else.
pub proof fn lemma_is_one(value: Option<Seq<char>>)
    ensures
        is_one(value) <==> (value is Some && value->0.len() == 1 && value->0[0] == '1'),
{
    if value is Some && value->0.len() == 1 && value->0[0] == '1' {
        assert(value->0 =~= seq!['1']);
    }
}

/// The Xcode environment sets `DEVELOPER_DIR` to the developer directory and
/// `SDKROOT` to the printed SDK path with its surrounding white space (such
/// as the final newline) removed, and nothing else removed.
pub proof fn lemma_xcode_env(developer_dir: Seq<char>, sdk_output: Seq<char>)
    ensures
        xcode_env_spec(developer_dir, sdk_output).len() == 2,
        xcode_env_spec(developer_dir, sdk_output)[0] == ("DEVELOPER_DIR"@, developer_dir),
        xcode_env_spec(developer_dir, sdk_output)[1].0 == "SDKROOT"@,
        is_trim_of(xcode_env_spec(developer_dir, sdk_output)[1].1, sdk_output),
{
    lemma_trim_is_trim(sdk_output);
}

/// The developer directory is the variable's value when it is set, the
/// default Xcode location otherwise.
pub proof fn lemma_developer_dir(var: Option<Seq<char>>)
    ensures
        var matches Some(v) ==> developer_dir_spec(var) == v,
        var is None ==> developer_dir_spec(var) == "/Applications/Xcode.app/Contents/Developer"@,
{
}


/// `codesign --verify --strict` on `target`.
pub open spec fn verifies_strictly(a: Seq<Seq<char>>, target: Seq<char>) -> bool {
    a.len() == 3 && a[0] == "--verify"@ && a[1] == "--strict"@ && a[2] == target
}

/// `codesign --force --timestamp --sign identity dmg`: a disk image is
/// signed with a timestamp, without the hardened runtime.
pub open spec fn signs_image(a: Seq<Seq<char>>, identity: Seq<char>, dmg: Seq<char>) -> bool {
    &&& a.len() == 5
    &&& a[0] == "--force"@
    &&& a[1] == "--timestamp"@
    &&& a[2] == "--sign"@
    &&& a[3] == identity
    &&& a[4] == dmg
}

/// `codesign --verify --verbose=2 dmg`.
pub open spec fn verifies_image(a: Seq<Seq<char>>, dmg: Seq<char>) -> bool {
    a.len() == 3 && a[0] == "--verify"@ && a[1] == "--verbose=2"@ && a[2] == dmg
}

/// The checks of the image signing commands hold for every identity, target
/// and image, and their flags do not depend on those.
pub proof fn lemma_codesign_image_args(identity: Seq<char>, target: Seq<char>, dmg: Seq<char>, other: Seq<char>)
    ensures
        verifies_strictly(codesign_verify_strict_args_spec(target), target),
        signs_image(sign_dmg_args_spec(identity, dmg), identity, dmg),
        verifies_image(verify_dmg_args_spec(dmg), dmg),
        sign_dmg_args_spec(identity, dmg).take(3) == sign_dmg_args_spec(other, other).take(3),
        verify_dmg_args_spec(dmg).take(2) == verify_dmg_args_spec(other).take(2),
        codesign_verify_strict_args_spec(target).take(2) == codesign_verify_strict_args_spec(other).take(2),
{
    assert(sign_dmg_args_spec(identity, dmg).take(3) =~= sign_dmg_args_spec(other, other).take(3));
    assert(verify_dmg_args_spec(dmg).take(2) =~= verify_dmg_args_spec(other).take(2));
    assert(codesign_verify_strict_args_spec(target).take(2) =~= codesign_verify_strict_args_spec(other).take(2));
}

/// The `create-dmg` arguments: the fixed window layout, then the background
/// pair exactly when a background was fetched, then the fixed icon layout,
/// then the output image and the app.
pub open spec fn packages_image(
    a: Seq<Seq<char>>,
    background: Option<Seq<char>>,
    output: Seq<char>,
    app: Seq<char>,
) -> bool {
    let b: int = if background is Some { 2 } else { 0 };
    &&& a.len() == 21 + b
    &&& a.take(10) == dmg_layout_args()
    &&& (background matches Some(bg) ==> a[10] == "--background"@ && a[11] == bg)
    &&& a.subrange(10 + b, 19 + b) == dmg_icon_args()
    &&& a[19 + b] == output
    &&& a[20 + b] == app
}

/// The layout of the image is the same whatever the paths; the background
/// adds its pair and nothing else; output and app come last.
pub proof fn lemma_create_dmg_args(
    background: Option<Seq<char>>,
    output: Seq<char>,
    app: Seq<char>,
    other_background: Option<Seq<char>>,
    other_output: Seq<char>,
    other_app: Seq<char>,
)
    ensures
        packages_image(create_dmg_args_spec(background, output, app), background, output, app),
        create_dmg_args_spec(background, output, app).take(10) == create_dmg_args_spec(
            other_background,
            other_output,
            other_app,
        ).take(10),
        (background is None) ==> (forall|k: int|
            0 <= k < create_dmg_args_spec(background, output, app).len() - 2 ==> #[trigger] create_dmg_args_spec(
                background,
                output,
                app,
            )[k] != "--background"@),
{
    let a = create_dmg_args_spec(background, output, app);
    let b: int = if background is Some { 2 } else { 0 };
    assert(a.take(10) =~= dmg_layout_args());
    assert(a.subrange(10 + b, 19 + b) =~= dmg_icon_args());
    assert(create_dmg_args_spec(other_background, other_output, other_app).take(10) =~= dmg_layout_args());
    if background is None {
        reveal_strlit("--background");
        reveal_strlit("--volname");
        reveal_strlit("NativeLogi");
        reveal_strlit("--window-pos");
        reveal_strlit("240");
        reveal_strlit("120");
        reveal_strlit("--window-size");
        reveal_strlit("760");
        reveal_strlit("512");
        reveal_strlit("--icon-size");
        reveal_strlit("128");
        reveal_strlit("--icon");
        reveal_strlit("NativeLogi.app");
        reveal_strlit("212");
        reveal_strlit("250");
        reveal_strlit("--app-drop-link");
        reveal_strlit("548");
        reveal_strlit("--hide-extension");
        assert forall|k: int| 0 <= k < a.len() - 2 implies #[trigger] a[k] != "--background"@ by {
            assert(a[k].len() != "--background"@.len() || a[k][2] != "--background"@[2] || a[k][3]
                != "--background"@[3]);
        }
    }
}

/// `sips -z n n master --out output` where `n` reads back as the pixel size.
pub open spec fn downscales_icon(a: Seq<Seq<char>>, size: nat, master: Seq<char>, output: Seq<char>) -> bool {
    &&& a.len() == 6
    &&& a[0] == "-z"@
    &&& a[1] == a[2]
    &&& digits_value(a[1]) == size
    &&& a[3] == master
    &&& a[4] == "--out"@
    &&& a[5] == output
}

/// The icon is downscaled to a square of exactly the slot's pixel size.
pub proof fn lemma_sips_args(size: nat, master: Seq<char>, output: Seq<char>)
    ensures
        downscales_icon(sips_args_spec(size, master, output), size, master, output),
{
    lemma_decimal_reads_back(size);
}

/// `iconutil -c icns iconset -o output`.
pub open spec fn builds_icns(a: Seq<Seq<char>>, iconset: Seq<char>, output: Seq<char>) -> bool {
    a.len() == 5 && a[0] == "-c"@ && a[1] == "icns"@ && a[2] == iconset && a[3] == "-o"@ && a[4] == output
}

/// `curl -fsSL url -o dest`.
pub open spec fn fetches(a: Seq<Seq<char>>, url: Seq<char>, dest: Seq<char>) -> bool {
    a.len() == 4 && a[0] == "-fsSL"@ && a[1] == url && a[2] == "-o"@ && a[3] == dest
}

/// The icon and download commands hold their inputs where the tools expect
/// them, for every input.
pub proof fn lemma_tool_args(iconset: Seq<char>, output: Seq<char>, url: Seq<char>, dest: Seq<char>)
    ensures
        builds_icns(iconutil_args_spec(iconset, output), iconset, output),
        fetches(curl_args_spec(url, dest), url, dest),
{
}

/// Signing goes inside out: the app is signed and then verified; when the
/// helper is there, it is signed first of all and verified last; without
/// it, no step names it.
pub open spec fn signs_inside_out(p: Seq<SignStep>, helper_exists: bool) -> bool {
    let h: int = if helper_exists { 1 } else { 0 };
    &&& p.len() == 2 + 2 * h
    &&& p[h] == SignStep::Sign(Bundle::App)
    &&& p[h + 1] == SignStep::Verify(Bundle::App)
    &&& helper_exists ==> p[0] == SignStep::Sign(Bundle::Helper) && p[3] == SignStep::Verify(
        Bundle::Helper,
    )
    &&& !helper_exists ==> forall|k: int|
        0 <= k < p.len() ==> #[trigger] p[k] != SignStep::Sign(Bundle::Helper) && p[k]
            != SignStep::Verify(Bundle::Helper)
}

/// The signing order holds with and without the helper.
pub proof fn lemma_sign_app_plan(helper_exists: bool)
    ensures
        signs_inside_out(sign_app_plan_spec(helper_exists), helper_exists),
{
}

/// The iconset: five point sizes 16, 32, 128, 256 and 512, each with a 1x
/// slot `icon_{s}x{s}.png` of `s` pixels followed by a 2x slot
/// `icon_{s}x{s}@2x.png` of twice as many, where `{s}` reads back as `s`.
pub open spec fn covers_iconset(slots: Seq<(u16, Seq<char>)>) -> bool {
    &&& slots.len() == 10
    &&& slots[0].0 == 16 && slots[2].0 == 32 && slots[4].0 == 128 && slots[6].0 == 256
        && slots[8].0 == 512
    &&& forall|k: int|
        0 <= k < 5 ==> {
            let s = #[trigger] slots[2 * k].0;
            let one = slots[2 * k].1;
            let two = slots[2 * k + 1].1;
            let d = decimal(s as nat);
            &&& slots[2 * k + 1].0 == 2 * s
            &&& digits_value(d) == s
            &&& one == seq!['i', 'c', 'o', 'n', '_'] + d + seq!['x'] + d + seq!['.', 'p', 'n', 'g']
            &&& two == seq!['i', 'c', 'o', 'n', '_'] + d + seq!['x'] + d + seq![
                '@',
                '2',
                'x',
                '.',
                'p',
                'n',
                'g',
            ]
        }
}

/// The iconset slots are the five sizes, each at 1x and 2x.
pub proof fn lemma_iconset_slots()
    ensures
        covers_iconset(iconset_slots_spec()),
{
    let slots = iconset_slots_spec();
    assert forall|k: int| 0 <= k < 5 implies {
        let s = #[trigger] slots[2 * k].0;
        let one = slots[2 * k].1;
        let two = slots[2 * k + 1].1;
        let d = decimal(s as nat);
        &&& slots[2 * k + 1].0 == 2 * s
        &&& digits_value(d) == s
        &&& one == seq!['i', 'c', 'o', 'n', '_'] + d + seq!['x'] + d + seq!['.', 'p', 'n', 'g']
        &&& two == seq!['i', 'c', 'o', 'n', '_'] + d + seq!['x'] + d + seq![
            '@',
            '2',
            'x',
            '.',
            'p',
            'n',
            'g',
        ]
    } by {
        assert((2 * k) / 2 == k);
        assert((2 * k + 1) / 2 == k);
        assert((2 * k) % 2 == 0);
        assert((2 * k + 1) % 2 == 1);
        lemma_decimal_reads_back(icon_base_sizes()[k] as nat);
    }
}

/// Each cargo task runs the command it names: the asset sync runs the
/// `openlogi` binary's `assets sync`, the agent build builds the
/// `openlogi-agent` package, and both build and bundle in release mode.
pub proof fn lemma_cargo_args()
    ensures
        cargo_args_spec(CargoTask::SyncAssets).len() == 7,
        cargo_args_spec(CargoTask::SyncAssets)[0] == "run"@,
        cargo_args_spec(CargoTask::SyncAssets)[2] == "openlogi"@,
        cargo_args_spec(CargoTask::SyncAssets)[3] == "--release"@,
        cargo_args_spec(CargoTask::SyncAssets).subrange(4, 7) == seq!["--"@, "assets"@, "sync"@],
        cargo_args_spec(CargoTask::InstallBundler) == seq!["install"@, "cargo-bundle"@, "--locked"@],
        cargo_args_spec(CargoTask::Bundle) == seq!["bundle"@, "--release"@],
        cargo_args_spec(CargoTask::BuildAgent) == seq!["build"@, "-p"@, "openlogi-agent"@, "--release"@],
        xcrun_sdk_path_args_spec() == seq!["--sdk"@, "macosx"@, "--show-sdk-path"@],
{
    assert(cargo_args_spec(CargoTask::SyncAssets).subrange(4, 7) =~= seq!["--"@, "assets"@, "sync"@]);
}

} // verus!
