//! The controller that runs in the target page: the text of its script, around its configuration.
use vstd::prelude::*;

verus! {

/// The script up to the configuration.
pub const CONTROLLER_HEAD: &'static str = "\n(() => {\n  const CONFIG = ";

/// The script behind the configuration.
pub const CONTROLLER_TAIL: &'static str = r##";

  if (window.__buttonAutomation && window.__buttonAutomation.version === 1) {
    window.__buttonAutomation.configure(CONFIG);
    return;
  }

  const runtime = {
    version: 1,
    endpoint: CONFIG.endpoint,
    inspector: false,
    running: false,
    selected: null,
    intervalMs: 5000,
    hoverTarget: null,
    timer: null,
    snapshotTimer: null,
    snapshotBusy: false,
    html2canvasLoaded: false,
    html2canvasFailed: false,
    lastSnapshotError: "",
    bridgeQueue: Promise.resolve(),
  };

  const overlayId = "__buttonAutomationOverlay";
  const selectedOverlayId = "__buttonAutomationSelectedOverlay";

  function base64UrlEncode(value) {
    const utf8 = encodeURIComponent(value).replace(/%([0-9A-F]{2})/g, (_match, code) =>
      String.fromCharCode(Number.parseInt(code, 16))
    );
    return btoa(utf8).replace(/\+/g, "-").replace(/\//g, "_").replace(/=+$/g, "");
  }

  function navigateBridge(url) {
    return new Promise((resolve) => {
      window.location.href = url;
      window.setTimeout(resolve, 12);
    });
  }

  async function sendBridgePayload(payload) {
    const data = base64UrlEncode(JSON.stringify(payload));
    const maxChunkSize = 1800;
    if (data.length <= maxChunkSize) {
      await navigateBridge(`${CONFIG.bridgeScheme}://event?data=${data}`);
      return;
    }

    const id = `${Date.now().toString(36)}-${Math.random().toString(36).slice(2)}`;
    const total = Math.ceil(data.length / maxChunkSize);
    for (let index = 0; index < total; index += 1) {
      const chunk = data.slice(index * maxChunkSize, (index + 1) * maxChunkSize);
      await navigateBridge(
        `${CONFIG.bridgeScheme}://chunk?id=${id}&index=${index}&total=${total}&data=${chunk}`
      );
    }
  }

  function post(payload) {
    payload.sentAt = Date.now();
    runtime.bridgeQueue = runtime.bridgeQueue
      .then(() => sendBridgePayload(payload))
      .catch(() => undefined);
  }

  function log(level, message) {
    post({ type: "log", level, message });
  }

  function compactText(value) {
    return String(value || "").replace(/\s+/g, " ").trim().slice(0, 140);
  }

  function cssEscape(value) {
    if (window.CSS && typeof window.CSS.escape === "function") {
      return window.CSS.escape(value);
    }
    return String(value).replace(/[^a-zA-Z0-9_-]/g, "\\$&");
  }

  function labelFor(element) {
    if (!element) return "";
    const inputValue = element instanceof HTMLInputElement ? element.value : "";
    return compactText(
      element.getAttribute("aria-label") ||
        element.getAttribute("title") ||
        inputValue ||
        element.innerText ||
        element.textContent ||
        element.tagName.toLowerCase()
    );
  }

  function selectorFor(element) {
    if (!element || element.nodeType !== Node.ELEMENT_NODE) return "";
    const parts = [];
    let node = element;
    while (node && node.nodeType === Node.ELEMENT_NODE && node !== document.documentElement) {
      const tag = node.tagName.toLowerCase();
      const id = node.getAttribute("id");
      if (id) {
        parts.unshift(`${tag}#${cssEscape(id)}`);
        break;
      }

      let part = tag;
      const testAttr = node.hasAttribute("data-testid") ? "data-testid" : "data-test";
      const testId = node.getAttribute(testAttr);
      if (testId) {
        part += `[${testAttr}="${String(testId).replace(/"/g, '\\"')}"]`;
        parts.unshift(part);
        break;
      }

      const classNames = Array.from(node.classList || []).filter(Boolean).slice(0, 2);
      if (classNames.length) {
        part += "." + classNames.map(cssEscape).join(".");
      }

      const parent = node.parentElement;
      if (parent) {
        const siblings = Array.from(parent.children).filter(
          (child) => child.tagName === node.tagName
        );
        if (siblings.length > 1) {
          part += `:nth-of-type(${siblings.indexOf(node) + 1})`;
        }
      }

      parts.unshift(part);
      node = parent;
    }
    return parts.join(" > ");
  }

  function isVisible(element) {
    if (!element || !(element instanceof Element)) return false;
    const rect = element.getBoundingClientRect();
    const style = window.getComputedStyle(element);
    return (
      rect.width > 0 &&
      rect.height > 0 &&
      style.display !== "none" &&
      style.visibility !== "hidden" &&
      Number(style.opacity || "1") > 0.02
    );
  }

  function isEnabled(element) {
    if (!element || !(element instanceof Element)) return false;
    if ("disabled" in element && element.disabled) return false;
    if (element.getAttribute("aria-disabled") === "true") return false;
    const style = window.getComputedStyle(element);
    if (style.pointerEvents === "none") return false;
    return true;
  }

  function isClickable(element) {
    if (!element || !(element instanceof Element)) return false;
    if (element.id === overlayId || element.id === selectedOverlayId) return false;
    const tag = element.tagName.toLowerCase();
    const role = element.getAttribute("role");
    const type = (element.getAttribute("type") || "").toLowerCase();
    const style = window.getComputedStyle(element);
    return (
      tag === "button" ||
      tag === "summary" ||
      tag === "a" ||
      role === "button" ||
      element.hasAttribute("onclick") ||
      element.hasAttribute("data-testid") ||
      (tag === "input" && ["button", "submit", "reset"].includes(type)) ||
      style.cursor === "pointer"
    );
  }

  function nearestClickable(element) {
    let node = element;
    let depth = 0;
    while (node && node !== document.body && depth < 8) {
      if (isClickable(node) && isVisible(node)) return node;
      node = node.parentElement;
      depth += 1;
    }
    return null;
  }

  function serializeElement(element) {
    const tag = element.tagName.toLowerCase();
    const role = element.getAttribute("role");
    const text = labelFor(element);
    const selector = selectorFor(element);
    return {
      tag,
      selector,
      text,
      role,
      name: text || selector || tag,
      fingerprint: [tag, role || "", text].join("|"),
    };
  }

  function sameByFingerprint(element, selected) {
    if (!selected) return false;
    const tag = element.tagName.toLowerCase();
    const role = element.getAttribute("role");
    const text = labelFor(element);
    if (selected.tag && selected.tag !== tag) return false;
    if (selected.role && selected.role !== role) return false;
    if (selected.text && selected.text === text) return true;
    return selected.fingerprint === [tag, role || "", text].join("|");
  }

  function findTarget() {
    const selected = runtime.selected;
    if (!selected) return null;
    if (selected.selector) {
      try {
        const direct = document.querySelector(selected.selector);
        if (direct && isVisible(direct)) return direct;
      } catch (_error) {
        // Ignore broken selectors from dynamic pages and fall through to fingerprint matching.
      }
    }

    const candidates = clickableCandidates(250);
    return candidates.find((element) => sameByFingerprint(element, selected)) || null;
  }

  function ensureOverlay(id, selected) {
    let overlay = document.getElementById(id);
    if (!overlay) {
      overlay = document.createElement("div");
      overlay.id = id;
      overlay.style.position = "fixed";
      overlay.style.zIndex = "2147483647";
      overlay.style.pointerEvents = "none";
      overlay.style.border = selected ? "2px solid #d25d2f" : "2px solid #1e6f5c";
      overlay.style.background = selected ? "rgba(210, 93, 47, 0.18)" : "rgba(30, 111, 92, 0.18)";
      overlay.style.boxShadow = selected
        ? "0 0 0 9999px rgba(210, 93, 47, 0.05)"
        : "0 0 0 9999px rgba(30, 111, 92, 0.05)";
      overlay.style.borderRadius = "6px";
      overlay.style.display = "none";
      document.documentElement.appendChild(overlay);
    }
    return overlay;
  }

  function drawOverlay(element, id, selected) {
    const overlay = ensureOverlay(id, selected);
    if (!element || !isVisible(element)) {
      overlay.style.display = "none";
      return;
    }
    const rect = element.getBoundingClientRect();
    overlay.style.display = "block";
    overlay.style.left = `${Math.max(rect.left, 0)}px`;
    overlay.style.top = `${Math.max(rect.top, 0)}px`;
    overlay.style.width = `${Math.max(rect.width, 1)}px`;
    overlay.style.height = `${Math.max(rect.height, 1)}px`;
  }

  function clearHoverOverlay() {
    const overlay = document.getElementById(overlayId);
    if (overlay) overlay.style.display = "none";
  }

  function handleMouseMove(event) {
    if (!runtime.inspector) return;
    const element = nearestClickable(document.elementFromPoint(event.clientX, event.clientY));
    runtime.hoverTarget = element;
    drawOverlay(element, overlayId, false);
  }

  function handleClick(event) {
    if (!runtime.inspector || !runtime.hoverTarget) return;
    event.preventDefault();
    event.stopPropagation();
    event.stopImmediatePropagation();

    const selected = serializeElement(runtime.hoverTarget);
    runtime.selected = selected;
    runtime.inspector = false;
    clearHoverOverlay();
    drawOverlay(runtime.hoverTarget, selectedOverlayId, true);
    post({ type: "selected", selected });
    log("success", `선택했다: ${selected.name}`);
  }

  function clickableCandidates(limit) {
    const selector = [
      "button",
      "summary",
      "a[href]",
      "[role='button']",
      "[onclick]",
      "[data-testid]",
      "[data-test]",
      "input[type='button']",
      "input[type='submit']",
      "input[type='reset']",
    ].join(",");
    const elements = Array.from(document.querySelectorAll(selector)).slice(0, limit);
    const known = new Set(elements);
    const pointerElements = [];
    for (const element of document.querySelectorAll("body *")) {
      if (pointerElements.length >= limit) break;
      if (known.has(element)) continue;
      if (!isVisible(element)) continue;
      if (window.getComputedStyle(element).cursor === "pointer") pointerElements.push(element);
    }
    return elements
      .concat(pointerElements)
      .filter((element) => isClickable(element) && isVisible(element))
      .slice(0, limit);
  }

  function rectFor(element) {
    const rect = element.getBoundingClientRect();
    return {
      x: Math.max(0, rect.left),
      y: Math.max(0, rect.top),
      width: Math.max(0, Math.min(rect.width, window.innerWidth - rect.left)),
      height: Math.max(0, Math.min(rect.height, window.innerHeight - rect.top)),
    };
  }

  function candidatePreview(element) {
    const selected = runtime.selected ? sameByFingerprint(element, runtime.selected) : false;
    return {
      rect: rectFor(element),
      label: labelFor(element) || element.tagName.toLowerCase(),
      selector: selectorFor(element),
      selected,
    };
  }

  async function ensureHtml2Canvas() {
    if (window.html2canvas) return true;
    runtime.html2canvasFailed = true;
    return false;
  }

  async function takeSnapshot() {
    if (runtime.snapshotBusy || !document.body) return;
    runtime.snapshotBusy = true;

    let image = null;
    const target = findTarget();
    const selectedRect = target && isVisible(target) ? rectFor(target) : null;
    const candidates = clickableCandidates(120)
      .map(candidatePreview)
      .filter((candidate) => candidate.rect.width > 0 && candidate.rect.height > 0);

    try {
      if (await ensureHtml2Canvas()) {
        const canvas = await window.html2canvas(document.body, {
          logging: false,
          useCORS: true,
          allowTaint: false,
          imageTimeout: 900,
          backgroundColor: window.getComputedStyle(document.body).backgroundColor || "#ffffff",
          scale: 0.45,
          width: window.innerWidth,
          height: window.innerHeight,
          x: window.scrollX,
          y: window.scrollY,
          windowWidth: window.innerWidth,
          windowHeight: window.innerHeight,
          ignoreElements: (element) => element.id === overlayId || element.id === selectedOverlayId,
        });
        image = canvas.toDataURL("image/jpeg", 0.42);
        if (image.length > 42000) image = null;
      }
    } catch (error) {
      const message = String(error && error.message ? error.message : error);
      if (runtime.lastSnapshotError !== message) {
        runtime.lastSnapshotError = message;
        log("warn", `화면 캡처 대신 DOM 미러를 사용한다: ${message}`);
      }
    }

    post({
      type: "snapshot",
      snapshot: {
        url: window.location.href,
        title: document.title,
        image,
        width: window.innerWidth,
        height: window.innerHeight,
        scrollX: window.scrollX,
        scrollY: window.scrollY,
        selectedRect,
        candidates: candidates.slice(0, 48),
        capturedAt: Date.now(),
      },
    });
    runtime.snapshotBusy = false;
  }

  function clickElement(element) {
    if (!element) return;
    element.scrollIntoView({ block: "center", inline: "center", behavior: "smooth" });
    window.setTimeout(() => {
      drawOverlay(element, selectedOverlayId, true);
      element.click();
      log("success", `눌렀다: ${labelFor(element) || runtime.selected?.name || "button"}`);
      takeSnapshot();
    }, 80);
  }

  function clickOnce() {
    if (!runtime.selected) {
      log("warn", "선택된 버튼이 없다.");
      return;
    }
    log("info", `찾는 중: ${runtime.selected.name}`);
    const target = findTarget();
    if (!target) {
      log("warn", `못 찾았다: ${runtime.selected.name}`);
      return;
    }
    drawOverlay(target, selectedOverlayId, true);
    log("success", `찾았다: ${labelFor(target) || runtime.selected.name}`);
    if (!isEnabled(target)) {
      log("warn", `찾았지만 아직 비활성화 상태다: ${labelFor(target) || runtime.selected.name}`);
      return;
    }
    clickElement(target);
  }

  function scheduleAutomation() {
    if (runtime.timer) {
      window.clearInterval(runtime.timer);
      runtime.timer = null;
    }
    if (!runtime.running || !runtime.selected) return;
    runtime.timer = window.setInterval(clickOnce, Math.max(runtime.intervalMs, 500));
    clickOnce();
  }

  function scheduleSnapshot() {
    if (runtime.snapshotTimer) {
      window.clearInterval(runtime.snapshotTimer);
    }
    runtime.snapshotTimer = window.setInterval(takeSnapshot, 1600);
    takeSnapshot();
  }

  function configure(config) {
    runtime.endpoint = config.endpoint;
    runtime.inspector = Boolean(config.inspector);
    runtime.running = Boolean(config.running);
    runtime.intervalMs = Number(config.intervalMs || 5000);
    runtime.selected = config.selected || runtime.selected || null;

    if (!runtime.inspector) {
      clearHoverOverlay();
    }

    if (runtime.selected) {
      drawOverlay(findTarget(), selectedOverlayId, true);
    }

    scheduleAutomation();
    scheduleSnapshot();
  }

  document.addEventListener("mousemove", handleMouseMove, true);
  document.addEventListener("click", handleClick, true);
  window.addEventListener("scroll", () => {
    if (runtime.selected) drawOverlay(findTarget(), selectedOverlayId, true);
  }, true);
  window.addEventListener("resize", takeSnapshot);

  runtime.configure = configure;
  runtime.clickOnce = clickOnce;
  window.__buttonAutomation = runtime;

  configure(CONFIG);
  log("info", "대상 웹뷰 런타임 연결됨");
})();
"##;

} // verus!
