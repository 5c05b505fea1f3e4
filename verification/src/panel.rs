//! The page of the panel.

use vstd::prelude::*;

verus! {

/// The page of the panel. It takes the token from its own address, asks for the
/// status, and switches features.
pub const PANEL_HTML: &'static str = r#"<!DOCTYPE html>
<html lang="zh-CN">
<head>
<meta charset="utf-8">
<meta name="viewport" content="width=device-width, initial-scale=1">
<title>KernelSU WebUI 面板</title>
<style>
  :root { color-scheme: dark; }
  * { box-sizing: border-box; margin: 0; padding: 0; }
  body {
    font-family: system-ui, -apple-system, "PingFang SC", "Noto Sans SC", sans-serif;
    background: #0b0f14; color: #e6edf3; padding: 16px; max-width: 640px; margin: 0 auto;
  }
  h1 { font-size: 18px; padding: 8px 0 16px; display: flex; align-items: center; gap: 8px; }
  .dot { width: 10px; height: 10px; border-radius: 50%; background: #3fb950; box-shadow: 0 0 8px #3fb95088; }
  .dot.bad { background: #f85149; box-shadow: 0 0 8px #f8514988; }
  .card {
    background: #11161d; border: 1px solid #1f2730; border-radius: 12px;
    padding: 14px 16px; margin-bottom: 12px;
  }
  .card h2 { font-size: 13px; color: #8b949e; font-weight: 500; margin-bottom: 8px; }
  .kv { display: flex; justify-content: space-between; padding: 4px 0; font-size: 14px; }
  .kv .k { color: #8b949e; }
  .kv .v { font-family: ui-monospace, monospace; }
  .row { display: flex; justify-content: space-between; align-items: center; padding: 10px 0; border-top: 1px solid #1f2730; }
  .row:first-of-type { border-top: none; }
  .row .label { font-size: 15px; }
  .row .desc { font-size: 12px; color: #8b949e; margin-top: 2px; }
  .switch { position: relative; width: 44px; height: 26px; flex: none; }
  .switch input { opacity: 0; width: 0; height: 0; }
  .slider {
    position: absolute; inset: 0; background: #30363d; border-radius: 26px;
    transition: background .2s; cursor: pointer;
  }
  .slider::before {
    content: ""; position: absolute; width: 20px; height: 20px; border-radius: 50%;
    background: #e6edf3; top: 3px; left: 3px; transition: transform .2s;
  }
  .switch input:checked + .slider { background: #238636; }
  .switch input:checked + .slider::before { transform: translateX(18px); }
  .switch input:disabled + .slider { opacity: .4; cursor: not-allowed; }
  .unsup { font-size: 12px; color: #f85149; }
  footer { text-align: center; color: #484f58; font-size: 12px; padding: 12px 0; }
</style>
</head>
<body>
<h1><span class="dot" id="dot"></span>KernelSU WebUI 面板</h1>

<div class="card">
  <h2>工作状态</h2>
  <div class="kv"><span class="k">版本</span><span class="v" id="v-version">-</span></div>
  <div class="kv"><span class="k">内核版本号</span><span class="v" id="v-kernel">-</span></div>
  <div class="kv"><span class="k">UAPI 版本</span><span class="v" id="v-uapi">-</span></div>
  <div class="kv"><span class="k">监听端口</span><span class="v" id="v-port">-</span></div>
</div>

<div class="card">
  <h2>功能开关</h2>
  <div id="features"></div>
</div>

<div class="card">
  <h2>说明</h2>
  <div style="font-size:13px;color:#8b949e;line-height:1.7">
    开关即改即生效并持久化，重启后自动恢复。<br>
    「隐身模式」开启后：dmesg 对普通应用关闭、内核指针隐藏、
    KernelSU 内核日志静默（需 CONFIG_KSU_STEALTH）。
  </div>
</div>

<footer>ReSukiSU webuid &middot; 仅监听 127.0.0.1 &middot; token 鉴权</footer>

<script>
const token = new URLSearchParams(location.search).get('token') || '';

const FEAT_LABELS = {
  su_compat:    ['传统 SU 命令支持', '允许已授权应用通过传统 su 命令获取 root'],
  kernel_umount:['卸载模块（内核级）', '内核自动为普通应用卸载模块挂载'],
  sulog:        ['SU 日志', '内核 sulog 事件流与持久化'],
  adb_root:     ['ADB Root', '以 root 权限运行 adbd 守护进程'],
  selinux_hide: ['隐藏 SELinux 修改', '阻止应用检测 SELinux 修改'],
  stealth:      ['隐身模式（Stealth）', 'dmesg_restrict + kptr_restrict + 日志静默'],
};

async function api(path) {
  const sep = path.includes('?') ? '&' : '?';
  const r = await fetch(path + sep + 'token=' + encodeURIComponent(token));
  if (!r.ok) throw new Error('HTTP ' + r.status);
  return r.text();
}

function render(status) {
  document.getElementById('v-version').textContent = status.full_version || status.version || '-';
  document.getElementById('v-kernel').textContent = status.kernel_version_code ?? '-';
  document.getElementById('v-uapi').textContent = status.uapi_version ?? '-';
  document.getElementById('v-port').textContent = status.port ?? '-';
  const ok = (status.kernel_features || 0) > 0;
  document.getElementById('dot').classList.toggle('bad', !ok);

  const box = document.getElementById('features');
  box.innerHTML = '';
  (status.features || []).forEach(f => {
    const [label, desc] = FEAT_LABELS[f.name] || [f.name, ''];
    const row = document.createElement('div');
    row.className = 'row';
    const left = document.createElement('div');
    left.innerHTML = '<div class="label">' + label + '</div><div class="desc">' + desc + '</div>';
    const right = document.createElement('div');
    if (!f.supported) {
      right.innerHTML = '<span class="unsup">内核未支持</span>';
    } else {
      const sw = document.createElement('label');
      sw.className = 'switch';
      sw.innerHTML = '<input type="checkbox" ' + (f.value ? 'checked' : '') + '><span class="slider"></span>';
      sw.querySelector('input').addEventListener('change', async (ev) => {
        ev.target.disabled = true;
        try {
          await api('/api/feature/set?id=' + f.id + '&value=' + (ev.target.checked ? 1 : 0));
          await load();
        } catch (e) {
          alert('设置失败: ' + e.message);
          ev.target.disabled = false;
        }
      });
      right.appendChild(sw);
    }
    row.appendChild(left);
    row.appendChild(right);
    box.appendChild(row);
  });
}

async function load() {
  try {
    render(JSON.parse(await api('/api/status')));
  } catch (e) {
    document.getElementById('dot').classList.add('bad');
  }
}

load();
setInterval(load, 15000);
</script>
</body>
</html>"#;

} // verus!
